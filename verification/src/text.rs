//! Text operations that the parser and the generator share: counting
//! line breaks, searching, replacing and trimming.

use vstd::prelude::*;

verus! {

/// The number of line breaks in `s`.
pub open spec fn newlines(s: Seq<char>) -> nat
    decreases s.len(),
{
    if s.len() == 0 {
        0
    } else {
        newlines(s.drop_last()) + if s.last() == '\n' { 1nat } else { 0nat }
    }
}

/// The line reached from `line` after reading `s`: one more for each line
/// break, held at the largest `i32` once it is reached.
pub open spec fn line_after(line: i32, s: Seq<char>) -> i32 {
    if line + newlines(s) <= i32::MAX {
        (line + newlines(s)) as i32
    } else {
        i32::MAX
    }
}

/// Whether `s` holds a line break.
pub open spec fn has_newline(s: Seq<char>) -> bool {
    exists|i: int| 0 <= i < s.len() && s[i] == '\n'
}

/// A text holds no more line breaks than characters, and holds one exactly
/// when the count is not zero.
pub proof fn lemma_newlines_bound(s: Seq<char>)
    ensures
        newlines(s) <= s.len(),
        newlines(s) > 0 <==> has_newline(s),
    decreases s.len(),
{
    if s.len() > 0 {
        lemma_newlines_bound(s.drop_last());
        if has_newline(s) && s.last() != '\n' {
            let i = choose|i: int| 0 <= i < s.len() && s[i] == '\n';
            assert(s.drop_last()[i] == '\n');
        }
    }
}

/// The line breaks of two texts put together are those of each.
pub proof fn lemma_newlines_concat(first: Seq<char>, second: Seq<char>)
    ensures
        newlines(first + second) == newlines(first) + newlines(second),
    decreases second.len(),
{
    if second.len() > 0 {
        lemma_newlines_concat(first, second.drop_last());
        assert((first + second).drop_last() =~= first + second.drop_last());
    }
}

/// Reading one text and then another reaches the line that reading the
/// two as one text reaches.
pub proof fn lemma_line_after_concat(line: i32, first: Seq<char>, second: Seq<char>)
    ensures
        line_after(line_after(line, first), second) == line_after(line, first + second),
{
    lemma_newlines_concat(first, second);
}

/// Counts the line breaks in `syntax`.
pub fn match_newlines(syntax: &str) -> (count: usize)
    ensures
        count == newlines(syntax@),
{
    let n: usize = syntax.unicode_len();
    let mut count: usize = 0;
    let mut i: usize = 0;
    while i < n
        invariant
            n == syntax@.len(),
            i <= n,
            count == newlines(syntax@.subrange(0, i as int)),
            count <= i,
        decreases n - i,
    {
        let c = syntax.get_char(i);
        proof {
            assert(syntax@.subrange(0, i + 1).drop_last() == syntax@.subrange(0, i as int));
        }
        if c == '\n' {
            count = count + 1;
        }
        i = i + 1;
    }
    proof {
        assert(syntax@.subrange(0, n as int) == syntax@);
    }
    count
}

/// Advances `line` past the text `syntax`.
pub fn advance_line(line: i32, syntax: &str) -> (next: i32)
    ensures
        next == line_after(line, syntax@),
{
    let count: usize = match_newlines(syntax);
    let room: i64 = i32::MAX as i64 - line as i64;
    if count as u64 <= room as u64 {
        (line as i64 + count as i64) as i32
    } else {
        i32::MAX
    }
}

/// Whether two texts are the same.
pub fn same_text(a: &str, b: &str) -> (same: bool)
    ensures
        same == (a@ == b@),
{
    String::from_str(a) == String::from_str(b)
}

/// Tests whether `whole` is `head` directly followed by `tail`.
pub fn splits_into(whole: &str, head: &str, tail: &str) -> (tiled: bool)
    ensures
        tiled == (head@ + tail@ == whole@),
{
    let length: usize = whole.unicode_len();
    let width: usize = head.unicode_len();
    if width > length || tail.unicode_len() != length - width {
        return false;
    }
    let front = whole.substring_char(0, width);
    let back = whole.substring_char(width, length);
    proof {
        assert(whole@ =~= whole@.subrange(0, width as int) + whole@.subrange(
            width as int,
            length as int,
        ));
        if head@ + tail@ == whole@ {
            assert(whole@.subrange(0, width as int) =~= head@);
            assert(whole@.subrange(width as int, length as int) =~= tail@);
        }
    }
    same_text(front, head) && same_text(back, tail)
}

/// `s` with every occurrence of `from` replaced by `to`, reading from the
/// left and passing over each replaced occurrence. An empty `from` occurs
/// nowhere.
pub open spec fn replaced(s: Seq<char>, from: Seq<char>, to: Seq<char>) -> Seq<char>
    decreases s.len(),
{
    if from.len() == 0 || s.len() < from.len() {
        s
    } else if s.subrange(0, from.len() as int) == from {
        to + replaced(s.subrange(from.len() as int, s.len() as int), from, to)
    } else {
        seq![s[0]] + replaced(s.subrange(1, s.len() as int), from, to)
    }
}

/// Whether `pattern` stands in `s` at position `at`.
pub open spec fn occurs_at(s: Seq<char>, pattern: Seq<char>, at: int) -> bool {
    0 <= at && at + pattern.len() <= s.len() && s.subrange(at, at + pattern.len()) == pattern
}

/// Tests whether `pattern` stands in `text` at position `at`.
pub fn starts_at(text: &str, pattern: &str, at: usize) -> (found: bool)
    requires
        at <= text@.len(),
    ensures
        found == occurs_at(text@, pattern@, at as int),
{
    let length: usize = text.unicode_len();
    let width: usize = pattern.unicode_len();
    if width > length - at {
        return false;
    }
    let mut k: usize = 0;
    while k < width
        invariant
            length == text@.len(),
            width == pattern@.len(),
            at + width <= length,
            k <= width,
            text@.subrange(at as int, at + k) == pattern@.subrange(0, k as int),
        decreases width - k,
    {
        if text.get_char(at + k) != pattern.get_char(k) {
            return false;
        }
        k = k + 1;
    }
    proof {
        assert(pattern@.subrange(0, width as int) =~= pattern@);
    }
    true
}

/// Replaces every occurrence of `from` in `text` by `to`.
pub fn replace(text: &str, from: &str, to: &str) -> (out: String)
    ensures
        out@ == replaced(text@, from@, to@),
{
    let length: usize = text.unicode_len();
    let width: usize = from.unicode_len();
    if width == 0 {
        return String::from_str(text);
    }
    let mut out = String::new();
    let mut at: usize = 0;
    proof {
        assert(text@.subrange(0, length as int) =~= text@);
    }
    while at < length
        invariant
            length == text@.len(),
            width == from@.len(),
            width > 0,
            at <= length,
            replaced(text@, from@, to@) == out@ + replaced(
                text@.subrange(at as int, length as int),
                from@,
                to@,
            ),
        decreases length - at,
    {
        let ghost tail = text@.subrange(at as int, length as int);
        if starts_at(text, from, at) {
            proof {
                assert(tail.subrange(0, width as int) =~= text@.subrange(at as int, at + width));
                assert(tail.subrange(width as int, tail.len() as int) =~= text@.subrange(
                    at + width,
                    length as int,
                ));
            }
            out.append(to);
            at = at + width;
        } else {
            proof {
                if tail.len() >= width {
                    assert(tail.subrange(0, width as int) =~= text@.subrange(at as int, at + width));
                }
                assert(tail.subrange(1, tail.len() as int) =~= text@.subrange(at + 1, length as int));
                if tail.len() < width {
                    lemma_replaced_short(tail, from@, to@);
                    lemma_replaced_short(text@.subrange(at + 1, length as int), from@, to@);
                }
            }
            out.append(text.substring_char(at, at + 1));
            at = at + 1;
        }
    }
    out
}

/// A text shorter than `from` holds no occurrence of it.
pub proof fn lemma_replaced_short(s: Seq<char>, from: Seq<char>, to: Seq<char>)
    requires
        s.len() < from.len(),
    ensures
        replaced(s, from, to) == s,
{
}

/// The position of the first `c` in `s`, or the length of `s` when it
/// holds none.
pub open spec fn index_of(s: Seq<char>, c: char) -> int
    decreases s.len(),
{
    if s.len() == 0 || s[0] == c {
        0
    } else {
        1 + index_of(s.subrange(1, s.len() as int), c)
    }
}

/// Finds the first `c` in `text` at or after position `from`; returns the
/// length of `text` when there is none.
pub fn find_from(text: &str, c: char, from: usize) -> (at: usize)
    requires
        from <= text@.len(),
    ensures
        at == from + index_of(text@.subrange(from as int, text@.len() as int), c),
        from <= at <= text@.len(),
{
    let length: usize = text.unicode_len();
    let mut at: usize = from;
    while at < length
        invariant
            length == text@.len(),
            from <= at <= length,
            from + index_of(text@.subrange(from as int, length as int), c) == at + index_of(
                text@.subrange(at as int, length as int),
                c,
            ),
        decreases length - at,
    {
        if text.get_char(at) == c {
            return at;
        }
        proof {
            assert(text@.subrange(at as int, length as int).subrange(1, length - at)
                =~= text@.subrange(at + 1, length as int));
        }
        at = at + 1;
    }
    at
}

/// Whether `c` is white space: one of the characters that Unicode classes
/// as `White_Space`.
pub open spec fn is_space(c: char) -> bool {
    let code = c as u32;
    ||| 0x09 <= code <= 0x0D
    ||| code == 0x20
    ||| code == 0x85
    ||| code == 0xA0
    ||| code == 0x1680
    ||| 0x2000 <= code <= 0x200A
    ||| code == 0x2028
    ||| code == 0x2029
    ||| code == 0x202F
    ||| code == 0x205F
    ||| code == 0x3000
}

/// Tests whether `c` is white space.
pub fn is_whitespace(c: char) -> (space: bool)
    ensures
        space == is_space(c),
{
    let code: u32 = c as u32;
    (0x09 <= code && code <= 0x0D) || code == 0x20 || code == 0x85 || code == 0xA0 || code
        == 0x1680 || (0x2000 <= code && code <= 0x200A) || code == 0x2028 || code == 0x2029
        || code == 0x202F || code == 0x205F || code == 0x3000
}

/// The number of white-space characters that `s` begins with.
pub open spec fn leading_spaces(s: Seq<char>) -> int
    decreases s.len(),
{
    if s.len() == 0 || !is_space(s[0]) {
        0
    } else {
        1 + leading_spaces(s.subrange(1, s.len() as int))
    }
}

/// The number of white-space characters that `s` ends with.
pub open spec fn trailing_spaces(s: Seq<char>) -> int
    decreases s.len(),
{
    if s.len() == 0 || !is_space(s.last()) {
        0
    } else {
        1 + trailing_spaces(s.drop_last())
    }
}

/// `s` without the white space it begins and ends with.
pub open spec fn trimmed(s: Seq<char>) -> Seq<char> {
    let front = s.subrange(leading_spaces(s), s.len() as int);
    front.subrange(0, front.len() - trailing_spaces(front))
}

/// Strips the white space at both ends of `text`.
pub fn trim<'a>(text: &'a str) -> (out: &'a str)
    ensures
        out@ == trimmed(text@),
{
    let length: usize = text.unicode_len();
    let mut start: usize = 0;
    proof {
        assert(text@.subrange(0, length as int) =~= text@);
    }
    while start < length && is_whitespace(text.get_char(start))
        invariant
            length == text@.len(),
            start <= length,
            leading_spaces(text@) == start + leading_spaces(
                text@.subrange(start as int, length as int),
            ),
        decreases length - start,
    {
        proof {
            assert(text@.subrange(start as int, length as int).subrange(1, length - start)
                =~= text@.subrange(start + 1, length as int));
        }
        start = start + 1;
    }
    let ghost front = text@.subrange(start as int, length as int);
    let mut end: usize = length;
    while end > start && is_whitespace(text.get_char(end - 1))
        invariant
            length == text@.len(),
            start <= end <= length,
            front == text@.subrange(start as int, length as int),
            trailing_spaces(front) == (length - end) + trailing_spaces(
                text@.subrange(start as int, end as int),
            ),
        decreases end - start,
    {
        proof {
            assert(text@.subrange(start as int, end as int).drop_last() =~= text@.subrange(
                start as int,
                end - 1,
            ));
        }
        end = end - 1;
    }
    text.substring_char(start, end)
}

} // verus!
