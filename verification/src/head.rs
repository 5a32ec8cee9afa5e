//! The head of a request: its first line and its header lines.
//!
//! The first line holds the method and the path, words that blanks set apart.
//! A header line holds a name and a value with a colon and a space between
//! them. Of the headers only the length of the body is read.

use crate::request::{method_named, Method, Request, RequestView};
use vstd::prelude::*;
use vstd::string::StrSliceExecFns;

verus! {

/// The characters of a text.
pub fn chars_of(text: &str) -> (r: Vec<char>)
    ensures
        r@ == text@,
{
    let mut out: Vec<char> = Vec::new();
    for c in it: text.chars()
        invariant
            it.seq() == text@,
            out@ == text@.take(it.index() as int),
    {
        out.push(c);
        assert(text@.take(it.index() + 1) =~= text@.take(it.index() as int).push(c));
    }
    assert(text@.take(text@.len() as int) =~= text@);
    out
}

/// A character that sets words apart: a space, a tab, or the end of a line.
pub open spec fn is_blank(c: char) -> bool {
    c == ' ' || c == '\t' || c == '\r' || c == '\n'
}

/// The first place from `from` on that holds no blank, or the end.
pub open spec fn skip_blanks(text: Seq<char>, from: int) -> int
    decreases text.len() - from,
{
    if 0 <= from < text.len() && is_blank(text[from]) {
        skip_blanks(text, from + 1)
    } else {
        from
    }
}

/// The first place from `from` on that holds a blank, or the end.
pub open spec fn skip_word(text: Seq<char>, from: int) -> int
    decreases text.len() - from,
{
    if 0 <= from < text.len() && !is_blank(text[from]) {
        skip_word(text, from + 1)
    } else {
        from
    }
}

/// The word that starts at the first place from `from` on that holds no
/// blank. It is empty where only blanks follow.
pub open spec fn word_from(text: Seq<char>, from: int) -> Seq<char> {
    text.subrange(skip_blanks(text, from), word_end(text, from))
}

/// The place behind the word that `word_from` gives.
pub open spec fn word_end(text: Seq<char>, from: int) -> int {
    skip_word(text, skip_blanks(text, from))
}

proof fn lemma_skips_stay_within(text: Seq<char>, from: int)
    requires
        0 <= from <= text.len(),
    ensures
        from <= skip_blanks(text, from) <= text.len(),
        from <= skip_word(text, from) <= text.len(),
    decreases text.len() - from,
{
    if from < text.len() {
        lemma_skips_stay_within(text, from + 1);
    }
}

fn is_blank_char(c: char) -> (r: bool)
    ensures
        r == is_blank(c),
{
    c == ' ' || c == '\t' || c == '\r' || c == '\n'
}

fn find_word_start(chars: &Vec<char>, from: usize) -> (r: usize)
    requires
        from <= chars.len(),
    ensures
        r == skip_blanks(chars@, from as int),
        from <= r <= chars.len(),
{
    let mut i = from;
    while i < chars.len() && is_blank_char(chars[i])
        invariant
            from <= i <= chars.len(),
            skip_blanks(chars@, i as int) == skip_blanks(chars@, from as int),
        decreases chars.len() - i,
    {
        i += 1;
    }
    i
}

fn find_word_end(chars: &Vec<char>, from: usize) -> (r: usize)
    requires
        from <= chars.len(),
    ensures
        r == skip_word(chars@, from as int),
        from <= r <= chars.len(),
{
    let mut i = from;
    while i < chars.len() && !is_blank_char(chars[i])
        invariant
            from <= i <= chars.len(),
            skip_word(chars@, i as int) == skip_word(chars@, from as int),
        decreases chars.len() - i,
    {
        i += 1;
    }
    i
}

/// What the first line of a request says: the method that its first word
/// names, and its second word as the path. A line without a second word has
/// an empty path. A line whose first word names no method says nothing.
pub open spec fn request_line_of(line: Seq<char>) -> Option<(Method, Seq<char>)> {
    match method_named(word_from(line, 0)) {
        Some(method) => Some((method, word_from(line, word_end(line, 0)))),
        None => None,
    }
}

/// Reads the first line of a request.
pub fn parse_request_line(line: &str) -> (r: Result<(Method, String), &'static str>)
    ensures
        match request_line_of(line@) {
            Some((method, path)) => r.is_ok() && r.unwrap().0 == method && r.unwrap().1@ == path,
            None => r.is_err() && r.unwrap_err()@ == "Invalid method"@,
        },
{
    let chars = chars_of(line);
    let method_start = find_word_start(&chars, 0);
    let method_end = find_word_end(&chars, method_start);
    let path_start = find_word_start(&chars, method_end);
    let path_end = find_word_end(&chars, path_start);
    match Method::from_str(line.substring_char(method_start, method_end)) {
        Ok(method) => Ok((method, line.substring_char(path_start, path_end).to_owned())),
        Err(reason) => Err(reason),
    }
}

/// The request with the given first line and body.
pub fn request_from(line: &str, body: Option<String>) -> (r: Result<Request, &'static str>)
    ensures
        match request_line_of(line@) {
            Some((method, path)) => r.is_ok() && r.unwrap()@ == (RequestView {
                method,
                uri: path,
                body: body.deep_view(),
            }),
            None => r.is_err() && r.unwrap_err()@ == "Invalid method"@,
        },
{
    match parse_request_line(line) {
        Ok((method, uri)) => Ok(Request::new(method, uri, body)),
        Err(reason) => Err(reason),
    }
}

/// The place of the first colon from `from` on that a space follows, or the
/// end where there is none.
pub open spec fn find_separator(text: Seq<char>, from: int) -> int
    decreases text.len() - from,
{
    if 0 <= from < text.len() {
        if text[from] == ':' && from + 1 < text.len() && text[from + 1] == ' ' {
            from
        } else {
            find_separator(text, from + 1)
        }
    } else {
        text.len() as int
    }
}

/// The place behind the last character that is no blank.
pub open spec fn trimmed_len(text: Seq<char>) -> int
    decreases text.len(),
{
    if text.len() > 0 && is_blank(text.last()) {
        trimmed_len(text.drop_last())
    } else {
        text.len() as int
    }
}

/// The name of a header line: what stands before the separator.
pub open spec fn header_name(line: Seq<char>) -> Seq<char> {
    let text = line.take(trimmed_len(line));
    text.take(find_separator(text, 0))
}

/// The value of a header line: what stands behind the separator, without the
/// blanks at the end of the line. It is empty where there is no separator.
pub open spec fn header_value(line: Seq<char>) -> Seq<char> {
    let text = line.take(trimmed_len(line));
    let at = find_separator(text, 0);
    if at < text.len() {
        text.skip(at + 2)
    } else {
        Seq::empty()
    }
}

/// The lower case of a letter of the English alphabet, and any other
/// character as it is.
pub open spec fn lower(c: char) -> char {
    if 'A' <= c <= 'Z' {
        ((c as u8 + 32) as u8) as char
    } else {
        c
    }
}

/// The two texts are the same but for the case of English letters.
pub open spec fn same_but_for_case(a: Seq<char>, b: Seq<char>) -> bool {
    &&& a.len() == b.len()
    &&& forall|i: int| 0 <= i < a.len() ==> lower(a[i]) == lower(b[i])
}

fn lower_char(c: char) -> (r: char)
    ensures
        r == lower(c),
{
    if 'A' <= c && c <= 'Z' {
        ((c as u8) + 32) as char
    } else {
        c
    }
}

/// A decimal digit.
pub open spec fn is_digit(c: char) -> bool {
    '0' <= c <= '9'
}

/// The number that a run of digits stands for.
pub open spec fn decimal(digits: Seq<char>) -> int
    decreases digits.len(),
{
    if digits.len() == 0 {
        0
    } else {
        decimal(digits.drop_last()) * 10 + (digits.last() as int - '0' as int)
    }
}

/// The number that a run of digits stands for, if that is all that it holds
/// and the number is not too large. An empty run stands for none.
pub open spec fn digits_value(digits: Seq<char>) -> Option<usize> {
    if digits.len() > 0 && (forall|i: int| 0 <= i < digits.len() ==> is_digit(#[trigger] digits[i]))
        && decimal(digits) <= usize::MAX {
        Some(decimal(digits) as usize)
    } else {
        None
    }
}

/// The number that a text stands for: digits, with a plus sign in front of
/// them or without.
pub open spec fn parse_usize(text: Seq<char>) -> Option<usize> {
    if text.len() > 0 && text[0] == '+' {
        digits_value(text.skip(1))
    } else {
        digits_value(text)
    }
}

proof fn lemma_decimal_grows(digits: Seq<char>, count: int)
    requires
        0 <= count <= digits.len(),
        forall|i: int| 0 <= i < digits.len() ==> is_digit(#[trigger] digits[i]),
    ensures
        0 <= decimal(digits.take(count)) <= decimal(digits),
    decreases digits.len() - count,
{
    lemma_decimal_not_negative(digits.take(count));
    if count < digits.len() {
        lemma_decimal_grows(digits, count + 1);
        assert(digits.take(count + 1).drop_last() =~= digits.take(count));
        assert(is_digit(digits[count]));
    } else {
        assert(digits.take(count) =~= digits);
    }
}

proof fn lemma_decimal_not_negative(digits: Seq<char>)
    requires
        forall|i: int| 0 <= i < digits.len() ==> is_digit(#[trigger] digits[i]),
    ensures
        0 <= decimal(digits),
    decreases digits.len(),
{
    if digits.len() > 0 {
        lemma_decimal_not_negative(digits.drop_last());
        assert(is_digit(digits[digits.len() - 1]));
    }
}

fn parse_number(chars: &Vec<char>, from: usize) -> (r: Option<usize>)
    requires
        from <= chars.len(),
    ensures
        r == parse_usize(chars@.skip(from as int)),
{
    let ghost text = chars@.skip(from as int);
    let start = if from < chars.len() && chars[from] == '+' {
        from + 1
    } else {
        from
    };
    let ghost digits = chars@.skip(start as int);
    proof {
        if from < chars.len() && chars[from as int] == '+' {
            assert(text[0] == '+');
            assert(digits =~= text.skip(1));
        } else {
            assert(digits =~= text);
            if text.len() > 0 {
                assert(text[0] == chars@[from as int]);
            }
        }
        assert(parse_usize(text) == digits_value(digits));
    }
    if start == chars.len() {
        return None;
    }
    let mut value: usize = 0;
    let mut i = start;
    assert(digits.take(0) =~= Seq::empty());
    while i < chars.len()
        invariant
            start <= i <= chars.len(),
            start < chars.len(),
            digits == chars@.skip(start as int),
            forall|k: int| 0 <= k < i - start ==> is_digit(#[trigger] digits[k]),
            value == decimal(digits.take(i - start)),
            from <= chars.len(),
            parse_usize(chars@.skip(from as int)) == digits_value(digits),
        decreases chars.len() - i,
    {
        let c = chars[i];
        assert(c == digits[i - start]);
        if !('0' <= c && c <= '9') {
            assert(!is_digit(digits[i - start]));
            return None;
        }
        let digit = (c as u32 - '0' as u32) as usize;
        proof {
            assert(digits.take(i - start + 1).drop_last() =~= digits.take(i - start));
            assert(digits.take(i - start + 1).last() == c);
        }
        if value > (usize::MAX - digit) / 10 {
            proof {
                if forall|k: int| 0 <= k < digits.len() ==> is_digit(#[trigger] digits[k]) {
                    lemma_decimal_grows(digits, i - start + 1);
                }
            }
            return None;
        }
        value = value * 10 + digit;
        i += 1;
    }
    assert(digits.take(i - start) =~= digits);
    Some(value)
}

/// What a header line says of the length of the body.
#[derive(Debug, Clone, Copy, PartialEq, Eq, Structural)]
pub enum ContentLength {
    /// The line is another header.
    Other,
    /// The body has this many bytes.
    Given(usize),
    /// The line names the length of the body and gives no number.
    Invalid,
}

/// What a header line says of the length of the body. The name of the header
/// is `content-length`, in any case.
pub open spec fn content_length_of(line: Seq<char>) -> ContentLength {
    if same_but_for_case(header_name(line), "content-length"@) {
        match parse_usize(header_value(line)) {
            Some(length) => ContentLength::Given(length),
            None => ContentLength::Invalid,
        }
    } else {
        ContentLength::Other
    }
}

fn find_trimmed_len(chars: &Vec<char>) -> (r: usize)
    ensures
        r == trimmed_len(chars@),
        r <= chars.len(),
{
    let mut end = chars.len();
    assert(chars@.take(end as int) =~= chars@);
    while end > 0 && is_blank_char(chars[end - 1])
        invariant
            end <= chars.len(),
            trimmed_len(chars@.take(end as int)) == trimmed_len(chars@),
        decreases end,
    {
        assert(chars@.take(end as int).drop_last() =~= chars@.take(end - 1));
        end -= 1;
    }
    proof {
        let text = chars@.take(end as int);
        if end > 0 {
            assert(text.last() == chars@[end - 1]);
        }
    }
    end
}

fn find_separator_in(chars: &Vec<char>) -> (r: usize)
    ensures
        r == find_separator(chars@, 0),
        r <= chars.len(),
        r < chars.len() ==> r + 2 <= chars.len(),
{
    let mut i: usize = 0;
    while i < chars.len() && !(chars[i] == ':' && i + 1 < chars.len() && chars[i + 1] == ' ')
        invariant
            i <= chars.len(),
            find_separator(chars@, i as int) == find_separator(chars@, 0),
        decreases chars.len() - i,
    {
        i += 1;
    }
    i
}

fn matches_name(chars: &Vec<char>, len: usize, name: &Vec<char>) -> (r: bool)
    requires
        len <= chars.len(),
    ensures
        r == same_but_for_case(chars@.take(len as int), name@),
{
    if len != name.len() {
        return false;
    }
    let mut i: usize = 0;
    while i < len
        invariant
            i <= len,
            len == name.len(),
            len <= chars.len(),
            forall|k: int| 0 <= k < i ==> lower(chars@[k]) == lower(name@[k]),
        decreases len - i,
    {
        if lower_char(chars[i]) != lower_char(name[i]) {
            assert(chars@.take(len as int)[i as int] == chars@[i as int]);
            return false;
        }
        i += 1;
    }
    assert forall|k: int| 0 <= k < len implies lower(chars@.take(len as int)[k]) == lower(
        name@[k],
    ) by {
        assert(chars@.take(len as int)[k] == chars@[k]);
    }
    true
}

/// Reads what a header line says of the length of the body.
pub fn parse_content_length(line: &str) -> (r: ContentLength)
    ensures
        r == content_length_of(line@),
{
    let mut chars = chars_of(line);
    let end = find_trimmed_len(&chars);
    chars.truncate(end);
    assert(chars@ =~= line@.take(trimmed_len(line@)));
    let at = find_separator_in(&chars);
    let name = chars_of("content-length");
    if !matches_name(&chars, at, &name) {
        return ContentLength::Other;
    }
    let length = if at < chars.len() {
        parse_number(&chars, at + 2)
    } else {
        assert(chars@.skip(chars@.len() as int) =~= Seq::empty());
        parse_number(&chars, chars.len())
    };
    match length {
        Some(length) => ContentLength::Given(length),
        None => ContentLength::Invalid,
    }
}

/// What has been read of the header lines of a request.
#[derive(Debug, Clone, Copy, PartialEq, Eq, Structural)]
pub struct HeadReader {
    /// The length of the body, once a header line has given it.
    pub content_length: Option<usize>,
}

/// What a header line means for the reading of a request.
#[derive(Debug, Clone, Copy, PartialEq, Eq, Structural)]
pub enum HeadStep {
    /// More header lines follow.
    More,
    /// The line is empty: the head ends here, and the body follows.
    Done,
    /// The line names the length of the body and gives no number: the request
    /// is refused.
    Invalid,
}

impl HeadReader {
    /// What the line means for a reader that stands at it.
    pub open spec fn step(self, line: Seq<char>) -> HeadStep {
        if trimmed_len(line) == 0 {
            HeadStep::Done
        } else if self.content_length is None && content_length_of(line) == ContentLength::Invalid {
            HeadStep::Invalid
        } else {
            HeadStep::More
        }
    }

    /// The reader after the line. The first line that gives the length of the
    /// body counts, and later ones are passed over.
    pub open spec fn after(self, line: Seq<char>) -> HeadReader {
        if trimmed_len(line) > 0 && self.content_length is None {
            match content_length_of(line) {
                ContentLength::Given(length) => HeadReader { content_length: Some(length) },
                _ => self,
            }
        } else {
            self
        }
    }

    /// A reader that has read no line yet.
    pub fn new() -> (r: Self)
        ensures
            r.content_length is None,
    {
        HeadReader { content_length: None }
    }

    /// Reads the next header line.
    pub fn read_line(&mut self, line: &str) -> (r: HeadStep)
        ensures
            r == old(self).step(line@),
            *final(self) == old(self).after(line@),
    {
        let chars = chars_of(line);
        if find_trimmed_len(&chars) == 0 {
            return HeadStep::Done;
        }
        if self.content_length.is_some() {
            return HeadStep::More;
        }
        match parse_content_length(line) {
            ContentLength::Given(length) => {
                self.content_length = Some(length);
                HeadStep::More
            },
            ContentLength::Invalid => HeadStep::Invalid,
            ContentLength::Other => HeadStep::More,
        }
    }
}

} // verus!
