//! Balanced-delimiter extraction of macro bodies.

use vstd::prelude::*;
use crate::ast::{lemma_trees_of_push, Node, Tree};
use crate::block_keyword::{closing_of, end_character};
use crate::error::{Failure, ParseError, ParseErrorKind};
use crate::pattern::{captures_of, parse};
use crate::text::{advance_line, lemma_newlines_concat, line_after, newlines, splits_into};
use crate::token::{Span, Token, TokenKind};

verus! {

// The white space before a macro body, then the rest of the input.
pub const LEADING_SPACE: &'static str = "^(\\s*)(?s)(.*)$";

/// Where the scan of `s` stops: one past the first position, from `at` on,
/// at which the count of `open` equals the count of `close` and is not
/// zero, the counts starting from `opens` and `closes`. `None` when the
/// text ends first.
pub open spec fn balance_end(
    s: Seq<char>,
    open: char,
    close: char,
    at: int,
    opens: int,
    closes: int,
) -> Option<int>
    decreases s.len() - at,
{
    if at < 0 || at >= s.len() {
        None
    } else {
        let opens_now = opens + if s[at] == open { 1int } else { 0int };
        let closes_now = closes + if s[at] == close { 1int } else { 0int };
        if opens_now == closes_now && opens_now > 0 {
            Some(at + 1)
        } else {
            balance_end(s, open, close, at + 1, opens_now, closes_now)
        }
    }
}

/// The scan stops inside the text, past the position it started from.
pub proof fn lemma_balance_end_bounds(
    s: Seq<char>,
    open: char,
    close: char,
    at: int,
    opens: int,
    closes: int,
)
    requires
        0 <= at,
    ensures
        balance_end(s, open, close, at, opens, closes) matches Some(end) ==> at < end <= s.len(),
    decreases s.len() - at,
{
    if at < s.len() {
        let opens_now = opens + if s[at] == open { 1int } else { 0int };
        let closes_now = closes + if s[at] == close { 1int } else { 0int };
        lemma_balance_end_bounds(s, open, close, at + 1, opens_now, closes_now);
    }
}

/// The scan stops on a delimiter: the character that brings the counts
/// level is the opening or the closing one.
pub proof fn lemma_balance_end_on_delimiter(
    s: Seq<char>,
    open: char,
    close: char,
    at: int,
    opens: int,
    closes: int,
)
    requires
        0 <= at,
        !(opens == closes && opens > 0),
    ensures
        balance_end(s, open, close, at, opens, closes) matches Some(end) ==> at < end <= s.len()
            && (s[end - 1] == open || s[end - 1] == close),
    decreases s.len() - at,
{
    if at < s.len() {
        let opens_now = opens + if s[at] == open { 1int } else { 0int };
        let closes_now = closes + if s[at] == close { 1int } else { 0int };
        if !(opens_now == closes_now && opens_now > 0) {
            lemma_balance_end_on_delimiter(s, open, close, at + 1, opens_now, closes_now);
        }
    }
}

/// An extracted macro body: its node, the text after it, and the line
/// reached at its end.
pub ghost struct Body {
    pub node: Tree,
    pub rest: Seq<char>,
    pub line: i32,
}

/// The payload of a body node: the scanned span, with a statement
/// terminator added when a line break follows the span directly.
pub open spec fn body_text(span: Seq<char>, rest: Seq<char>) -> Seq<char> {
    if rest.len() > 0 && rest[0] == '\n' {
        span.push(';')
    } else {
        span
    }
}

/// The macro body that begins `text` on line `line`. The first character is
/// the opening delimiter; the span runs through the closing delimiter that
/// brings the two counts level. `None` when `text` is empty, does not open
/// with `(`, `[` or `{`, or never balances.
pub open spec fn body_at(text: Seq<char>, line: i32) -> Option<Body> {
    if text.len() == 0 {
        None
    } else {
        match closing_of(text[0]) {
            None => None,
            Some(close) => match balance_end(text, text[0], close, 0, 0, 0) {
                None => None,
                Some(end) => {
                    let span = text.subrange(0, end);
                    let rest = text.subrange(end, text.len() as int);
                    Some(
                        Body {
                            node: Tree {
                                token: Token {
                                    kind: TokenKind::MacroBody,
                                    span: Span { line },
                                    eos: false,
                                },
                                children: Seq::empty(),
                                data: Some(body_text(span, rest)),
                            },
                            rest,
                            line: line_after(line, span),
                        },
                    )
                },
            },
        }
    }
}

/// Extracts the macro body that begins `text`, which starts at the opening
/// delimiter.
pub fn extract_body<'a>(text: &'a str, line_number: i32) -> (found: Option<(Node, &'a str, i32)>)
    ensures
        match body_at(text@, line_number) {
            Some(body) => found matches Some(parts) && parts.0@ == body.node && parts.1@ == body.rest
                && parts.2 == body.line,
            None => found is None,
        },
{
    let length: usize = text.unicode_len();
    if length == 0 {
        return None;
    }
    let open = text.get_char(0);
    let close = match end_character(open) {
        Some(close) => close,
        None => {
            return None;
        },
    };
    let mut at: usize = 0;
    let mut opens: usize = 0;
    let mut closes: usize = 0;
    while at < length
        invariant
            length == text@.len(),
            at <= length,
            opens <= at,
            closes <= at,
            open == text@[0],
            closing_of(open) == Some(close),
            balance_end(text@, open, close, 0, 0, 0) == balance_end(
                text@,
                open,
                close,
                at as int,
                opens as int,
                closes as int,
            ),
        decreases length - at,
    {
        let c = text.get_char(at);
        if c == open {
            opens = opens + 1;
        }
        if c == close {
            closes = closes + 1;
        }
        at = at + 1;
        if opens == closes && opens > 0 {
            let span = text.substring_char(0, at);
            let rest = text.substring_char(at, length);
            let mut data = String::from_str(span);
            if length > at && text.get_char(at) == '\n' {
                data.append(";");
                proof {
                    reveal_strlit(";");
                    assert(";"@ =~= seq![';']);
                    assert(span@ + seq![';'] =~= span@.push(';'));
                }
            }
            let token = Token::new(TokenKind::MacroBody, line_number, false);
            let node = Node { token, children: Vec::new(), data: Some(data) };
            let line = advance_line(line_number, span);
            return Some((node, rest, line));
        }
    }
    None
}

/// The body of the macro whose marker is followed by `after`, the marker
/// ending on line `line`: the white space that `after` begins with is
/// skipped, then the body is read at the first character that is left. The
/// failure carries `after` and `line`.
pub open spec fn macro_body(after: Seq<char>, line: i32) -> Result<Body, Failure> {
    let failure = Failure { kind: ParseErrorKind::UnbalancedMacro, unconsumed_text: after, line };
    match captures_of(LEADING_SPACE@, after) {
        None => Err(failure),
        Some((space, text)) => if space + text == after {
            match body_at(text, line_after(line, space)) {
                Some(body) => Ok(body),
                None => Err(failure),
            }
        } else {
            Err(failure)
        },
    }
}

/// A macro body leaves no more text than followed the macro marker.
pub proof fn lemma_macro_body_consumes(after: Seq<char>, line: i32)
    ensures
        macro_body(after, line) matches Ok(body) ==> body.rest.len() <= after.len(),
{
    match captures_of(LEADING_SPACE@, after) {
        None => {},
        Some((space, text)) => {
            if text.len() > 0 && closing_of(text[0]) is Some {
                lemma_balance_end_bounds(text, text[0], closing_of(text[0]).unwrap(), 0, 0, 0);
            }
        },
    }
}

/// What a node is once `child` has been added after its children.
pub open spec fn with_child(parent: Tree, child: Tree) -> Tree {
    Tree { children: parent.children.push(child), ..parent }
}

/// Reads the body of a macro from `syntax`, the text after the macro
/// marker, and adds it to `tree` as a child. Returns the text after the
/// body and the line reached there. On failure `tree` is left as it was.
pub fn parse_macro_body<'a>(syntax: &'a str, tree: &mut Node, line_number: i32) -> (outcome: Result<
    (&'a str, i32),
    ParseError,
>)
    ensures
        match macro_body(syntax@, line_number) {
            Ok(body) => outcome matches Ok(reached) && reached.0@ == body.rest && reached.1
                == body.line && final(tree)@ == with_child(old(tree)@, body.node),
            Err(failure) => outcome matches Err(error) && error@ == failure && *final(tree) == *old(
                tree,
            ),
        },
        outcome matches Ok(reached) ==> reached.0@.len() <= syntax@.len(),
{
    match parse(LEADING_SPACE, syntax) {
        Some((space, text)) => {
            if !splits_into(syntax, space, text) {
                return Err(ParseError::new(ParseErrorKind::UnbalancedMacro, syntax, line_number));
            }
            let line = advance_line(line_number, space);
            match extract_body(text, line) {
                Some((node, rest, reached)) => {
                    proof {
                        lemma_trees_of_push(tree.children@, node);
                        lemma_macro_body_consumes(syntax@, line_number);
                    }
                    tree.children.push(node);
                    Ok((rest, reached))
                },
                None => Err(ParseError::new(ParseErrorKind::UnbalancedMacro, syntax, line_number)),
            }
        },
        None => Err(ParseError::new(ParseErrorKind::UnbalancedMacro, syntax, line_number)),
    }
}

/// The number of times `c` occurs in `s`.
pub open spec fn count_of(s: Seq<char>, c: char) -> nat
    decreases s.len(),
{
    if s.len() == 0 {
        0
    } else {
        count_of(s.drop_last(), c) + if s.last() == c { 1nat } else { 0nat }
    }
}

/// Whether the delimiters `open` and `close` are balanced inside
/// `contents`: it holds as many of the one as of the other, and no part of
/// it from its start on holds more closers than openers.
pub open spec fn balanced_inside(contents: Seq<char>, open: char, close: char) -> bool {
    &&& count_of(contents, open) == count_of(contents, close)
    &&& forall|k: int|
        0 <= k <= contents.len() ==> count_of(#[trigger] contents.subrange(0, k), open) >= count_of(
            contents.subrange(0, k),
            close,
        )
}

proof fn lemma_scan_runs_through(
    text: Seq<char>,
    contents: Seq<char>,
    tail: Seq<char>,
    open: char,
    close: char,
    at: int,
)
    requires
        open != close,
        balanced_inside(contents, open, close),
        text == seq![open] + contents + seq![close] + tail,
        1 <= at <= contents.len() + 1,
    ensures
        balance_end(
            text,
            open,
            close,
            at,
            1 + count_of(contents.subrange(0, at - 1), open) as int,
            count_of(contents.subrange(0, at - 1), close) as int,
        ) == Some(contents.len() as int + 2),
    decreases contents.len() + 1 - at,
{
    let before = contents.subrange(0, at - 1);
    if at == contents.len() + 1 {
        assert(before =~= contents);
    } else {
        let through = contents.subrange(0, at);
        assert(through.drop_last() =~= before);
        lemma_scan_runs_through(text, contents, tail, open, close, at + 1);
    }
}

/// Body extraction does not depend on the choice of delimiter. For each of
/// the pairs `(` `)`, `[` `]` and `{` `}`: when the text is the opening
/// delimiter, contents in which the pair is balanced, the closing delimiter
/// and then anything, the extracted span is exactly the two delimiters
/// around those contents, the remainder is what follows the closing
/// delimiter, and the line advances by the line breaks of the contents.
pub proof fn lemma_body_spans_delimiters(
    open: char,
    contents: Seq<char>,
    tail: Seq<char>,
    line: i32,
)
    requires
        closing_of(open) is Some,
        balanced_inside(contents, open, closing_of(open).unwrap()),
    ensures
        ({
            let close = closing_of(open).unwrap();
            let span = seq![open] + contents + seq![close];
            &&& body_at(span + tail, line) matches Some(body)
            &&& body.node.data == Some(body_text(span, tail))
            &&& body.node.children.len() == 0
            &&& body.node.token.span.line == line
            &&& body.rest == tail
            &&& body.line == line_after(line, contents)
        }),
{
    let close = closing_of(open).unwrap();
    let span = seq![open] + contents + seq![close];
    let text = span + tail;
    lemma_scan_runs_through(text, contents, tail, open, close, 1);
    assert(text.subrange(0, contents.len() as int + 2) =~= span);
    lemma_newlines_concat(seq![open] + contents, seq![close]);
    lemma_newlines_concat(seq![open], contents);
    assert(seq![open].drop_last() =~= Seq::<char>::empty());
    assert(seq![close].drop_last() =~= Seq::<char>::empty());
    assert(newlines(Seq::<char>::empty()) == 0);
}

} // verus!
