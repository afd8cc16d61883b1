use crate::error::StringpyErr;
use crate::text::range_ok;
use regex::Regex;
use vstd::prelude::*;

verus! {

/// The byte offsets at which a match starts and ends in the text searched.
pub type Span = (usize, usize);

/// A compiled pattern of the regex crate. Nothing is known of what it holds.
#[verifier::external_type_specification]
#[verifier::external_body]
pub struct ExRegex(Regex);

/// A pattern compiled for use on any number of rows. The field is private and
/// nothing but `compile` makes a value: every pattern was compiled by
/// `Regex::new` from its text, with no option set, so that two patterns with
/// the same text match alike.
pub struct Pattern {
    re: Regex,
}

/// The text that a pattern was compiled from (`Regex::as_str`).
pub uninterp spec fn pattern_source(pattern: Pattern) -> Seq<char>;

impl View for Pattern {
    type V = Seq<char>;

    open spec fn view(&self) -> Seq<char> {
        pattern_source(*self)
    }
}

/// The error that the regex crate gives for a pattern that does not
/// compile. Nothing is known of what it holds but its message, by
/// `error_text`.
#[verifier::external_type_specification]
#[verifier::external_body]
pub struct ExRegexError(regex::Error);

/// What `Regex::new` objects to in a pattern text, on a machine whose
/// addresses have `bits` bits: nothing where the pattern compiles, else the
/// message of the error that it gives. The regex crate refuses a pattern whose
/// compiled form is larger than a fixed number of bytes, and that size goes by
/// the width of an address; so the width is part of the question.
pub uninterp spec fn regex_failure(pattern: Seq<char>, bits: u32) -> Option<Seq<char>>;

/// The message of a compile error (its `to_string`).
pub uninterp spec fn error_text(err: regex::Error) -> Seq<char>;

/// What the pattern compiler objects to in a pattern text on this machine.
pub open spec fn compile_failure(pattern: Seq<char>) -> Option<Seq<char>> {
    regex_failure(pattern, usize::BITS)
}

/// Whether the pattern text compiles on this machine.
pub open spec fn regex_compiles(pattern: Seq<char>) -> bool {
    compile_failure(pattern) is None
}

/// Whether an error says that `pattern` does not compile, in the words of the
/// pattern compiler.
pub open spec fn is_pattern_error(e: StringpyErr, pattern: Seq<char>) -> bool {
    &&& e matches StringpyErr::PatternError(message)
    &&& compile_failure(pattern) == Some(message@)
}

/// Whether a span lies in `text`: its offsets are in order, inside the text,
/// and cut no character.
pub open spec fn span_fits(text: Seq<char>, span: Option<Span>) -> bool {
    span matches Some((start, end)) ==> range_ok(text, start as int, end as int)
}

/// Whether each of the spans lies in `text`.
pub open spec fn spans_fit(text: Seq<char>, spans: Seq<Option<Span>>) -> bool {
    forall|k: int| 0 <= k < spans.len() ==> span_fits(text, #[trigger] spans[k])
}

/// Whether the pattern matches anywhere in `text` (`Regex::is_match`).
pub uninterp spec fn regex_is_match(pattern: Seq<char>, text: Seq<char>) -> bool;

/// The span of the first match of the pattern in `text` (`Regex::find`).
pub uninterp spec fn regex_find(pattern: Seq<char>, text: Seq<char>) -> Option<Span>;

/// The spans of the successive matches of the pattern in `text`
/// (`Regex::find_iter`).
pub uninterp spec fn regex_find_all(pattern: Seq<char>, text: Seq<char>) -> Seq<Span>;

/// The spans of the groups of the first match of the pattern in `text`, the
/// whole match first (`Regex::captures`).
pub uninterp spec fn regex_captures(pattern: Seq<char>, text: Seq<char>) -> Option<
    Seq<Option<Span>>,
>;

/// The spans of the groups of each successive match of the pattern in `text`
/// (`Regex::captures_iter`).
pub uninterp spec fn regex_captures_all(pattern: Seq<char>, text: Seq<char>) -> Seq<
    Seq<Option<Span>>,
>;

/// The number of groups of the pattern, the whole match included
/// (`Regex::captures_len`).
pub uninterp spec fn regex_group_count(pattern: Seq<char>) -> usize;

/// `text` with the first match of the pattern replaced by the expansion of
/// `rep` (`Regex::replace`).
pub uninterp spec fn regex_replace(pattern: Seq<char>, text: Seq<char>, rep: Seq<char>) -> Seq<
    char,
>;

/// `text` with every match of the pattern replaced by the expansion of `rep`
/// (`Regex::replace_all`).
pub uninterp spec fn regex_replace_all(pattern: Seq<char>, text: Seq<char>, rep: Seq<char>) -> Seq<
    char,
>;

/// The pieces of `text` between the matches of the pattern, at most `limit` of
/// them (`Regex::splitn`).
pub uninterp spec fn regex_splitn(pattern: Seq<char>, text: Seq<char>, limit: usize) -> Seq<
    Seq<char>,
>;

/// Whether `c` has a meaning of its own in a pattern.
pub open spec fn is_meta(c: char) -> bool {
    c == '\\' || c == '.' || c == '+' || c == '*' || c == '?' || c == '(' || c == ')' || c == '|'
        || c == '[' || c == ']' || c == '{' || c == '}' || c == '^' || c == '$' || c == '#' || c
        == '&' || c == '-' || c == '~'
}

/// `text` with a backslash before each character that has a meaning of its own
/// in a pattern.
pub open spec fn escaped(text: Seq<char>) -> Seq<char>
    decreases text.len(),
{
    if text.len() == 0 {
        Seq::empty()
    } else if is_meta(text.last()) {
        escaped(text.drop_last()).push('\\').push(text.last())
    } else {
        escaped(text.drop_last()).push(text.last())
    }
}

/// Calls `Regex::new`, the only place where a `Pattern` is made. Taken on
/// trust: whether a pattern compiles, and with which message it fails,
/// depends on its text and on the width of the machine's addresses alone; and
/// a compiled pattern keeps the text it was made from.
#[verifier::external_body]
fn regex_new(pattern: &str) -> (r: Result<Pattern, regex::Error>)
    ensures
        r is Ok <==> regex_failure(pattern@, usize::BITS) is None,
        r matches Ok(pat) ==> pattern_source(pat) == pattern@,
        r matches Err(err) ==> regex_failure(pattern@, usize::BITS) == Some(error_text(err)),
{
    Regex::new(pattern).map(|re| Pattern { re })
}

/// Calls `to_string` on a `regex::Error`, which gives the compiler's message.
/// Taken on trust: the message depends on the error alone.
#[verifier::external_body]
pub(crate) fn error_message(err: &regex::Error) -> (message: String)
    ensures
        message@ == error_text(*err),
{
    err.to_string()
}

/// Calls `Regex::as_str`, which gives the text that the pattern was compiled
/// from. Taken on trust: it is that text.
#[verifier::external_body]
pub(crate) fn pattern_text(pat: &Pattern) -> (text: String)
    ensures
        text@ == pattern_source(*pat),
{
    pat.re.as_str().to_string()
}

/// Calls `regex::escape`. Taken on trust: it copies the text and puts a
/// backslash before each of the characters that `is_meta` lists.
#[verifier::external_body]
pub(crate) fn escape(text: &str) -> (out: String)
    ensures
        out@ == escaped(text@),
{
    regex::escape(text)
}

/// Calls `Regex::is_match`. Taken on trust: for a pattern made by
/// `Regex::new` the answer depends on the pattern's text and on the text
/// searched alone.
#[verifier::external_body]
pub(crate) fn is_match(pat: &Pattern, text: &str) -> (found: bool)
    ensures
        found == regex_is_match(pat@, text@),
{
    pat.re.is_match(text)
}

/// Calls `Regex::find` and takes the byte offsets of the match. Taken on
/// trust: for a pattern made by `Regex::new` they depend on the pattern's
/// text and on the text searched alone; and, as the regex crate promises of
/// every match, the start is not after the end and both fall on character
/// boundaries of the text.
#[verifier::external_body]
pub(crate) fn find(pat: &Pattern, text: &str) -> (span: Option<Span>)
    ensures
        span == regex_find(pat@, text@),
        span_fits(text@, span),
{
    pat.re.find(text).map(|m| (m.start(), m.end()))
}

/// Calls `Regex::find_iter` and takes the byte offsets of each match it
/// yields, in order. Taken on trust: for a pattern made by `Regex::new` they
/// depend on the pattern's text and on the text searched alone; and, as the
/// regex crate promises of every match, the start is not after the end and
/// both fall on character boundaries of the text.
#[verifier::external_body]
pub(crate) fn find_all(pat: &Pattern, text: &str) -> (spans: Vec<Span>)
    ensures
        spans@ == regex_find_all(pat@, text@),
        forall|k: int| 0 <= k < spans@.len() ==> span_fits(text@, Some(#[trigger] spans@[k])),
{
    pat.re.find_iter(text).map(|m| (m.start(), m.end())).collect()
}

/// Calls `Regex::captures` and takes the byte offsets of each group of the
/// match, in the order of the groups, with nothing for a group that took no
/// part. Taken on trust: for a pattern made by `Regex::new` they depend on
/// the pattern's text and on the text searched alone; and, as the regex crate
/// promises of every match, a group's start is not after its end and both
/// fall on character boundaries of the text.
#[verifier::external_body]
pub(crate) fn captures(pat: &Pattern, text: &str) -> (groups: Option<Vec<Option<Span>>>)
    ensures
        groups.deep_view() == regex_captures(pat@, text@),
        groups matches Some(spans) ==> spans_fit(text@, spans@),
{
    pat.re.captures(text).map(|c| c.iter().map(|g| g.map(|m| (m.start(), m.end()))).collect())
}

/// Calls `Regex::captures_iter` and takes, for each match it yields, the byte
/// offsets of each group. Taken on trust: for a pattern made by `Regex::new`
/// they depend on the pattern's text and on the text searched alone; and, as
/// the regex crate promises of every match, a group's start is not after its
/// end and both fall on character boundaries of the text.
#[verifier::external_body]
pub(crate) fn captures_all(pat: &Pattern, text: &str) -> (matches: Vec<Vec<Option<Span>>>)
    ensures
        matches.deep_view() == regex_captures_all(pat@, text@),
        forall|k: int| 0 <= k < matches@.len() ==> spans_fit(text@, (#[trigger] matches@[k])@),
{
    pat.re.captures_iter(text).map(
        |c| c.iter().map(|g| g.map(|m| (m.start(), m.end()))).collect(),
    ).collect()
}

/// Calls `Regex::captures_len`. Taken on trust: for a pattern made by
/// `Regex::new` the number depends on the pattern's text alone.
#[verifier::external_body]
pub(crate) fn group_count(pat: &Pattern) -> (n: usize)
    ensures
        n == regex_group_count(pat@),
{
    pat.re.captures_len()
}

/// Calls `Regex::replace` with a replacement text. Taken on trust: for a
/// pattern made by `Regex::new` the result depends on the pattern's text, the
/// text searched and the replacement alone.
#[verifier::external_body]
pub(crate) fn replace_first(pat: &Pattern, text: &str, rep: &str) -> (out: String)
    ensures
        out@ == regex_replace(pat@, text@, rep@),
{
    pat.re.replace(text, rep).into_owned()
}

/// Calls `Regex::replace_all` with a replacement text. Taken on trust: for a
/// pattern made by `Regex::new` the result depends on the pattern's text, the
/// text searched and the replacement alone.
#[verifier::external_body]
pub(crate) fn replace_every(pat: &Pattern, text: &str, rep: &str) -> (out: String)
    ensures
        out@ == regex_replace_all(pat@, text@, rep@),
{
    pat.re.replace_all(text, rep).into_owned()
}

/// Calls `Regex::splitn` and collects the pieces it yields, in order. Taken
/// on trust: for a pattern made by `Regex::new` they depend on the pattern's
/// text, the text searched and the limit alone.
#[verifier::external_body]
pub(crate) fn splitn(pat: &Pattern, text: &str, limit: usize) -> (pieces: Vec<String>)
    ensures
        pieces.deep_view() == regex_splitn(pat@, text@, limit),
{
    pat.re.splitn(text, limit).map(|p| p.to_string()).collect()
}

/// Compiles `pattern` once, for use on any number of rows. A pattern that does
/// not compile gives a `PatternError` with the compiler's message.
pub fn compile(pattern: &str) -> (r: Result<Pattern, StringpyErr>)
    ensures
        r is Ok <==> regex_compiles(pattern@),
        r matches Ok(pat) ==> pat@ == pattern@,
        r matches Err(e) ==> is_pattern_error(e, pattern@),
{
    match regex_new(pattern) {
        Ok(pat) => Ok(pat),
        Err(err) => Err(StringpyErr::PatternError(error_message(&err))),
    }
}

} // verus!
