use crate::apply::apply;
use crate::atomic::{detect, detect_row};
use crate::column::{propagates_nulls, Column};
use crate::error::StringpyErr;
use crate::pattern::{
    captures, compile, escape, escaped, find, find_all, group_count, is_pattern_error,
    pattern_text, regex_captures, regex_compiles, regex_find, regex_find_all, regex_group_count,
    regex_replace, regex_replace_all, replace_every, replace_first, Pattern, Span,
};
use crate::text::{substring, text_between};
use vstd::prelude::*;

verus! {

/// The number of matches of the pattern in one row, as a 32-bit integer: a
/// number past its range wraps round.
pub open spec fn count_row(pattern: Seq<char>, x: Option<Seq<char>>) -> Option<i32> {
    match x {
        None => None,
        Some(t) => Some(regex_find_all(pattern, t).len() as i32),
    }
}

/// Counts the matches of a compiled pattern in each row.
pub fn str_count_compiled(array: &Column<String>, pat: &Pattern) -> (out: Column<i32>)
    ensures
        out@.len() == array@.len(),
        forall|i: int|
            0 <= i < array@.len() ==> #[trigger] out@[i] == count_row(pat@, array@[i]),
        propagates_nulls(array@, out@),
{
    let row = |i: usize, x: &Option<String>| -> (y: Option<i32>)
        ensures
            y == count_row(pat@, x.deep_view()),
        {
            match x {
                None => None,
                Some(s) => {
                    let spans = find_all(pat, s.as_str());
                    Some(#[verifier::truncate] (spans.len() as i32))
                },
            }
        };
    apply(array, row)
}

/// Counts the matches of `pattern` in each row. The pattern is compiled once,
/// before any row is read; one that does not compile gives a `PatternError`
/// and no output.
pub fn str_count(array: &Column<String>, pattern: &str) -> (r: Result<Column<i32>, StringpyErr>)
    ensures
        r is Ok <==> regex_compiles(pattern@),
        r matches Err(e) ==> is_pattern_error(e, pattern@),
        r matches Ok(out) ==> {
            &&& out@.len() == array@.len()
            &&& forall|i: int|
                0 <= i < array@.len() ==> #[trigger] out@[i] == count_row(pattern@, array@[i])
            &&& propagates_nulls(array@, out@)
        },
{
    match compile(pattern) {
        Err(e) => Err(e),
        Ok(pat) => Ok(str_count_compiled(array, &pat)),
    }
}

/// Tells of each row whether a compiled pattern matches in it, or with
/// `negate` whether it does not.
pub fn str_detect_compiled(array: &Column<String>, pat: &Pattern, negate: bool) -> (out: Column<bool>)
    ensures
        out@.len() == array@.len(),
        forall|i: int|
            0 <= i < array@.len() ==> #[trigger] out@[i] == detect_row(
                pat@,
                array@[i],
                negate,
            ),
        propagates_nulls(array@, out@),
{
    let row = |i: usize, x: &Option<String>| -> (y: Option<bool>)
        ensures
            y == detect_row(pat@, x.deep_view(), negate),
        {
            match x {
                None => None,
                Some(s) => detect(Some(s.as_str()), pat, negate),
            }
        };
    apply(array, row)
}

/// Tells of each row whether `pattern` matches anywhere in it. The pattern is
/// compiled once, before any row is read; one that does not compile gives a
/// `PatternError` and no output.
pub fn str_detect(array: &Column<String>, pattern: &str) -> (r: Result<Column<bool>, StringpyErr>)
    ensures
        r is Ok <==> regex_compiles(pattern@),
        r matches Err(e) ==> is_pattern_error(e, pattern@),
        r matches Ok(out) ==> {
            &&& out@.len() == array@.len()
            &&& forall|i: int|
                0 <= i < array@.len() ==> #[trigger] out@[i] == detect_row(
                    pattern@,
                    array@[i],
                    false,
                )
            &&& propagates_nulls(array@, out@)
        },
{
    match compile(pattern) {
        Err(e) => Err(e),
        Ok(pat) => Ok(str_detect_compiled(array, &pat, false)),
    }
}

/// The pattern that matches the literal text `prefix` at the start of a row.
pub open spec fn starts_pattern(prefix: Seq<char>) -> Seq<char> {
    seq!['^'] + escaped(prefix)
}

/// The pattern that matches the literal text `suffix` at the end of a row.
pub open spec fn ends_pattern(suffix: Seq<char>) -> Seq<char> {
    escaped(suffix).push('$')
}

/// Tells of each row whether it starts with the literal text `pattern`, or
/// with `negate` whether it does not.
pub fn str_starts(array: &Column<String>, pattern: &str, negate: bool) -> (r: Result<
    Column<bool>,
    StringpyErr,
>)
    ensures
        r is Ok <==> regex_compiles(starts_pattern(pattern@)),
        r matches Err(e) ==> is_pattern_error(e, starts_pattern(pattern@)),
        r matches Ok(out) ==> {
            &&& out@.len() == array@.len()
            &&& forall|i: int|
                0 <= i < array@.len() ==> #[trigger] out@[i] == detect_row(
                    starts_pattern(pattern@),
                    array@[i],
                    negate,
                )
            &&& propagates_nulls(array@, out@)
        },
{
    let mut anchored = String::from_str("^");
    proof {
        reveal_strlit("^");
        assert("^"@ == seq!['^']);
    }
    let literal = escape(pattern);
    anchored.append(literal.as_str());
    assert(anchored@ =~= starts_pattern(pattern@));
    match compile(anchored.as_str()) {
        Err(e) => Err(e),
        Ok(pat) => Ok(str_detect_compiled(array, &pat, negate)),
    }
}

/// Tells of each row whether it ends with the literal text `pattern`, or with
/// `negate` whether it does not.
pub fn str_ends(array: &Column<String>, pattern: &str, negate: bool) -> (r: Result<
    Column<bool>,
    StringpyErr,
>)
    ensures
        r is Ok <==> regex_compiles(ends_pattern(pattern@)),
        r matches Err(e) ==> is_pattern_error(e, ends_pattern(pattern@)),
        r matches Ok(out) ==> {
            &&& out@.len() == array@.len()
            &&& forall|i: int|
                0 <= i < array@.len() ==> #[trigger] out@[i] == detect_row(
                    ends_pattern(pattern@),
                    array@[i],
                    negate,
                )
            &&& propagates_nulls(array@, out@)
        },
{
    let mut anchored = escape(pattern);
    proof {
        reveal_strlit("$");
        assert("$"@ == seq!['$']);
    }
    anchored.append("$");
    assert(anchored@ =~= ends_pattern(pattern@));
    match compile(anchored.as_str()) {
        Err(e) => Err(e),
        Ok(pat) => Ok(str_detect_compiled(array, &pat, negate)),
    }
}

/// One row with the first match of the pattern replaced.
pub open spec fn replace_row(pattern: Seq<char>, x: Option<Seq<char>>, rep: Seq<char>) -> Option<
    Seq<char>,
> {
    match x {
        None => None,
        Some(t) => Some(regex_replace(pattern, t, rep)),
    }
}

/// One row with every match of the pattern replaced.
pub open spec fn replace_all_row(pattern: Seq<char>, x: Option<Seq<char>>, rep: Seq<char>) -> Option<
    Seq<char>,
> {
    match x {
        None => None,
        Some(t) => Some(regex_replace_all(pattern, t, rep)),
    }
}

/// Replaces the first match of a compiled pattern in each row by `replace`.
pub fn str_replace_compiled(array: &Column<String>, pat: &Pattern, replace: &str) -> (out: Column<
    String,
>)
    ensures
        out@.len() == array@.len(),
        forall|i: int|
            0 <= i < array@.len() ==> #[trigger] out@[i] == replace_row(
                pat@,
                array@[i],
                replace@,
            ),
        propagates_nulls(array@, out@),
{
    let row = |i: usize, x: &Option<String>| -> (y: Option<String>)
        ensures
            y.deep_view() == replace_row(pat@, x.deep_view(), replace@),
        {
            match x {
                None => None,
                Some(s) => Some(replace_first(pat, s.as_str(), replace)),
            }
        };
    apply(array, row)
}

/// Replaces every match of a compiled pattern in each row by `replace`.
pub fn str_replace_all_compiled(array: &Column<String>, pat: &Pattern, replace: &str) -> (out: Column<
    String,
>)
    ensures
        out@.len() == array@.len(),
        forall|i: int|
            0 <= i < array@.len() ==> #[trigger] out@[i] == replace_all_row(
                pat@,
                array@[i],
                replace@,
            ),
        propagates_nulls(array@, out@),
{
    let row = |i: usize, x: &Option<String>| -> (y: Option<String>)
        ensures
            y.deep_view() == replace_all_row(pat@, x.deep_view(), replace@),
        {
            match x {
                None => None,
                Some(s) => Some(replace_every(pat, s.as_str(), replace)),
            }
        };
    apply(array, row)
}

/// Replaces the first match of `pattern` in each row by `replace`, in which
/// `$` followed by a group's number or name stands for what the group matched.
/// The pattern is compiled once, before any row is read; one that does not
/// compile gives a `PatternError` and no output.
pub fn str_replace(array: &Column<String>, pattern: &str, replace: &str) -> (r: Result<
    Column<String>,
    StringpyErr,
>)
    ensures
        r is Ok <==> regex_compiles(pattern@),
        r matches Err(e) ==> is_pattern_error(e, pattern@),
        r matches Ok(out) ==> {
            &&& out@.len() == array@.len()
            &&& forall|i: int|
                0 <= i < array@.len() ==> #[trigger] out@[i] == replace_row(
                    pattern@,
                    array@[i],
                    replace@,
                )
            &&& propagates_nulls(array@, out@)
        },
{
    match compile(pattern) {
        Err(e) => Err(e),
        Ok(pat) => Ok(str_replace_compiled(array, &pat, replace)),
    }
}

/// Replaces every match of `pattern` in each row by `replace`. The pattern is
/// compiled once, before any row is read; one that does not compile gives a
/// `PatternError` and no output.
pub fn str_replace_all(array: &Column<String>, pattern: &str, replace: &str) -> (r: Result<
    Column<String>,
    StringpyErr,
>)
    ensures
        r is Ok <==> regex_compiles(pattern@),
        r matches Err(e) ==> is_pattern_error(e, pattern@),
        r matches Ok(out) ==> {
            &&& out@.len() == array@.len()
            &&& forall|i: int|
                0 <= i < array@.len() ==> #[trigger] out@[i] == replace_all_row(
                    pattern@,
                    array@[i],
                    replace@,
                )
            &&& propagates_nulls(array@, out@)
        },
{
    match compile(pattern) {
        Err(e) => Err(e),
        Ok(pat) => Ok(str_replace_all_compiled(array, &pat, replace)),
    }
}

/// Removes the first match of `pattern` from each row.
pub fn str_remove(array: &Column<String>, pattern: &str) -> (r: Result<Column<String>, StringpyErr>)
    ensures
        r is Ok <==> regex_compiles(pattern@),
        r matches Err(e) ==> is_pattern_error(e, pattern@),
        r matches Ok(out) ==> {
            &&& out@.len() == array@.len()
            &&& forall|i: int|
                0 <= i < array@.len() ==> #[trigger] out@[i] == replace_row(
                    pattern@,
                    array@[i],
                    Seq::empty(),
                )
            &&& propagates_nulls(array@, out@)
        },
{
    proof {
        reveal_strlit("");
        assert(""@ == Seq::<char>::empty());
    }
    str_replace(array, pattern, "")
}

/// Removes every match of `pattern` from each row.
pub fn str_remove_all(array: &Column<String>, pattern: &str) -> (r: Result<
    Column<String>,
    StringpyErr,
>)
    ensures
        r is Ok <==> regex_compiles(pattern@),
        r matches Err(e) ==> is_pattern_error(e, pattern@),
        r matches Ok(out) ==> {
            &&& out@.len() == array@.len()
            &&& forall|i: int|
                0 <= i < array@.len() ==> #[trigger] out@[i] == replace_all_row(
                    pattern@,
                    array@[i],
                    Seq::empty(),
                )
            &&& propagates_nulls(array@, out@)
        },
{
    proof {
        reveal_strlit("");
        assert(""@ == Seq::<char>::empty());
    }
    str_replace_all(array, pattern, "")
}

/// The text that a span marks in `text`; nothing for no span, and for a span
/// that is no part of the text.
pub open spec fn span_text(text: Seq<char>, span: Option<Span>) -> Option<Seq<char>> {
    match span {
        None => None,
        Some((start, end)) => text_between(text, start as int, end as int),
    }
}

/// The span of group `group` among the groups of a match; nothing where the
/// group took no part in the match or is not among them.
pub open spec fn group_span(groups: Seq<Option<Span>>, group: usize) -> Option<Span> {
    if group < groups.len() {
        groups[group as int]
    } else {
        None
    }
}

/// The span that is extracted from a text: that of the first match of the
/// pattern, or with a group that of the group in the first match; nothing
/// where the pattern does not match, or the group took no part.
pub open spec fn found_span(pattern: Seq<char>, text: Seq<char>, group: Option<usize>) -> Option<
    Span,
> {
    match group {
        None => regex_find(pattern, text),
        Some(g) => match regex_captures(pattern, text) {
            None => None,
            Some(groups) => group_span(groups, g),
        },
    }
}

/// What is extracted from a text: what the first match of the pattern
/// matched, or with a group what that group matched in the first match.
pub open spec fn extracted(pattern: Seq<char>, text: Seq<char>, group: Option<usize>) -> Option<
    Seq<char>,
> {
    span_text(text, found_span(pattern, text, group))
}

/// Whether something is extracted from one row: the row is not null, the
/// pattern matches in it, and the group, if one is asked for, took part.
pub open spec fn row_matched(pattern: Seq<char>, x: Option<Seq<char>>, group: Option<usize>) -> bool {
    x matches Some(t) && found_span(pattern, t, group) is Some
}

/// What is extracted from one row; null for a null row, and where nothing
/// matched.
pub open spec fn extract_row(pattern: Seq<char>, x: Option<Seq<char>>, group: Option<usize>) -> Option<
    Seq<char>,
> {
    match x {
        None => None,
        Some(t) => extracted(pattern, t, group),
    }
}

/// Copies the part of `text` that a span marks.
pub fn cut_span(text: &str, span: Option<Span>) -> (out: Option<String>)
    ensures
        out.deep_view() == span_text(text@, span),
{
    match span {
        None => None,
        Some((start, end)) => match substring(text, start, end) {
            None => None,
            Some(part) => Some(part.to_owned()),
        },
    }
}

/// Picks the span of one group from the groups of a match.
pub fn pick_group(groups: &Vec<Option<Span>>, group: usize) -> (span: Option<Span>)
    ensures
        span == group_span(groups@, group),
{
    if group < groups.len() {
        groups[group]
    } else {
        None
    }
}

/// Extracts from `text` what the first match of a compiled pattern matched,
/// or what one of its groups matched.
pub fn extract_text(text: &str, pat: &Pattern, group: Option<usize>) -> (out: Option<String>)
    ensures
        out.deep_view() == extracted(pat@, text@, group),
        out is Some <==> found_span(pat@, text@, group) is Some,
{
    match group {
        None => cut_span(text, find(pat, text)),
        Some(g) => match captures(pat, text) {
            None => None,
            Some(groups) => {
                assert(groups.deep_view() =~= groups@);
                cut_span(text, pick_group(&groups, g))
            },
        },
    }
}

/// Whether an error says that `group` is not among the groups of `pattern`.
pub open spec fn is_group_error(e: StringpyErr, pattern: Seq<char>, group: Option<usize>) -> bool {
    &&& e matches StringpyErr::InvalidGroupIndex { group: asked, groups, pattern: text }
    &&& Some(asked) == group
    &&& groups == regex_group_count(pattern)
    &&& text@ == pattern
}

/// Whether a pattern has the group asked for, if one is asked for.
pub open spec fn has_group(pattern: Seq<char>, group: Option<usize>) -> bool {
    group matches Some(g) ==> g < regex_group_count(pattern)
}

/// Checks, before any row is read, that a compiled pattern has the group asked
/// for.
pub fn check_group(pat: &Pattern, group: Option<usize>) -> (r: Result<(), StringpyErr>)
    ensures
        r is Ok <==> has_group(pat@, group),
        r matches Err(e) ==> is_group_error(e, pat@, group),
{
    match group {
        None => Ok(()),
        Some(g) => {
            let groups = group_count(pat);
            if g >= groups {
                Err(StringpyErr::InvalidGroupIndex { group: g, groups, pattern: pattern_text(pat) })
            } else {
                Ok(())
            }
        },
    }
}

/// Extracts from each row what the first match of a compiled pattern matched,
/// or with `group` what that group matched. A row without a match becomes
/// null, and so does one in whose match the group took no part; every other
/// row gives a text, the empty text for an empty match. A group that the
/// pattern does not have is refused before any row is read.
pub fn str_extract_compiled(array: &Column<String>, pat: &Pattern, group: Option<usize>) -> (r: Result<
    Column<String>,
    StringpyErr,
>)
    ensures
        r is Ok <==> has_group(pat@, group),
        r matches Err(e) ==> is_group_error(e, pat@, group),
        r matches Ok(out) ==> {
            &&& out@.len() == array@.len()
            &&& forall|i: int|
                0 <= i < array@.len() ==> #[trigger] out@[i] == extract_row(
                    pat@,
                    array@[i],
                    group,
                ) && (out@[i] is Some <==> row_matched(pat@, array@[i], group))
            &&& propagates_nulls(array@, out@)
        },
{
    match check_group(pat, group) {
        Err(e) => Err(e),
        Ok(()) => {
            let row = |i: usize, x: &Option<String>| -> (y: Option<String>)
                ensures
                    y.deep_view() == extract_row(pat@, x.deep_view(), group),
                    y is Some <==> row_matched(pat@, x.deep_view(), group),
                {
                    match x {
                        None => None,
                        Some(s) => extract_text(s.as_str(), pat, group),
                    }
                };
            Ok(apply(array, row))
        },
    }
}

/// Extracts from each row what the first match of `pattern` matched, or with
/// `group` what that group matched. The pattern is compiled once, before any
/// row is read; one that does not compile gives a `PatternError`, and a group
/// that the pattern does not have an `InvalidGroupIndex`, both with no output.
pub fn str_extract(array: &Column<String>, pattern: &str, group: Option<usize>) -> (r: Result<
    Column<String>,
    StringpyErr,
>)
    ensures
        r is Ok <==> regex_compiles(pattern@) && has_group(pattern@, group),
        r matches Err(e) ==> if regex_compiles(pattern@) {
            is_group_error(e, pattern@, group)
        } else {
            is_pattern_error(e, pattern@)
        },
        r matches Ok(out) ==> {
            &&& out@.len() == array@.len()
            &&& forall|i: int|
                0 <= i < array@.len() ==> #[trigger] out@[i] == extract_row(
                    pattern@,
                    array@[i],
                    group,
                ) && (out@[i] is Some <==> row_matched(pattern@, array@[i], group))
            &&& propagates_nulls(array@, out@)
        },
{
    match compile(pattern) {
        Err(e) => Err(e),
        Ok(pat) => str_extract_compiled(array, &pat, group),
    }
}

} // verus!
