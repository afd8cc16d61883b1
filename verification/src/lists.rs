use crate::apply::apply;
use crate::column::Column;
use crate::error::StringpyErr;
use crate::matching::{
    check_group, cut_span, group_span, has_group, is_group_error, pick_group, span_text,
};
use crate::pattern::{
    captures, captures_all, compile, find, find_all, is_pattern_error, regex_captures,
    regex_captures_all, regex_compiles, regex_find, regex_find_all, regex_splitn, span_fits,
    spans_fit, splitn, Pattern, Span,
};
use crate::ragged::{assemble, slots_of, ListColumn};
use vstd::prelude::*;

verus! {

/// Whether `out` holds the result of each row of a column of `n` rows as
/// `result` gives it: one row for each, with the slots of its result.
pub open spec fn holds_results<V>(
    out: ListColumn<V>,
    n: nat,
    result: spec_fn(int) -> Option<Seq<Option<V::V>>>,
) -> bool where V: DeepView {
    &&& out.wf()
    &&& out.spec_len() == n
    &&& out.rows_occupied()
    &&& forall|i: int| 0 <= i < n ==> #[trigger] out.row(i) == slots_of(result(i))
}

/// The items of a split text: its pieces, none of them null.
pub open spec fn split_items(pattern: Seq<char>, text: Seq<char>, limit: usize) -> Seq<
    Option<Seq<char>>,
> {
    regex_splitn(pattern, text, limit).map_values(|piece: Seq<char>| Some(piece))
}

/// The result of splitting one row; null for a null row.
pub open spec fn split_row(pattern: Seq<char>, x: Option<Seq<char>>, limit: usize) -> Option<
    Seq<Option<Seq<char>>>,
> {
    match x {
        None => None,
        Some(t) => Some(split_items(pattern, t, limit)),
    }
}

/// The most pieces that a split gives: `n`, or no limit but the machine's.
pub open spec fn limit_of(n: Option<usize>) -> usize {
    match n {
        Some(limit) => limit,
        None => usize::MAX,
    }
}

/// Makes each piece a list item.
pub fn wrap_pieces(pieces: Vec<String>) -> (items: Vec<Option<String>>)
    ensures
        items.deep_view() == pieces.deep_view().map_values(|piece: Seq<char>| Some(piece)),
{
    let ghost want = pieces.deep_view().map_values(|piece: Seq<char>| Some(piece));
    let mut items: Vec<Option<String>> = Vec::new();
    for piece in it: pieces
        invariant
            it.seq() == pieces@,
            want == pieces.deep_view().map_values(|piece: Seq<char>| Some(piece)),
            items@.len() == it.index(),
            forall|k: int| 0 <= k < it.index() ==> (#[trigger] items@[k]).deep_view() == want[k],
    {
        items.push(Some(piece));
    }
    assert(items.deep_view() =~= want);
    items
}

/// Splits each row at the matches of a compiled pattern, into at most `limit`
/// pieces.
pub fn str_split_compiled(array: &Column<String>, pat: &Pattern, limit: usize) -> (out: ListColumn<
    String,
>)
    ensures
        holds_results(out, array@.len(), |i: int| split_row(pat@, array@[i], limit)),
{
    let row = |i: usize, x: &Option<String>| -> (y: Option<Vec<Option<String>>>)
        ensures
            y.deep_view() == split_row(pat@, x.deep_view(), limit),
        {
            match x {
                None => None,
                Some(s) => Some(wrap_pieces(splitn(pat, s.as_str(), limit))),
            }
        };
    let results = apply(array, row);
    assemble(results.into_rows())
}

/// Splits each row at the matches of `pattern`, into at most `n` pieces where
/// `n` is given. The pattern is compiled once, before any row is read; one
/// that does not compile gives a `PatternError` and no output.
pub fn str_split(array: &Column<String>, pattern: &str, n: Option<usize>) -> (r: Result<
    ListColumn<String>,
    StringpyErr,
>)
    ensures
        r is Ok <==> regex_compiles(pattern@),
        r matches Err(e) ==> is_pattern_error(e, pattern@),
        r matches Ok(out) ==> holds_results(
            out,
            array@.len(),
            |i: int| split_row(pattern@, array@[i], limit_of(n)),
        ),
{
    let limit = match n {
        Some(limit) => limit,
        None => usize::MAX,
    };
    match compile(pattern) {
        Err(e) => Err(e),
        Ok(pat) => Ok(str_split_compiled(array, &pat, limit)),
    }
}

/// The items extracted from a text: what each successive match of the pattern
/// matched, or with a group what that group matched in each; an item is null
/// where the group took no part in the match.
pub open spec fn extract_all_items(pattern: Seq<char>, text: Seq<char>, group: Option<usize>) -> Seq<
    Option<Seq<char>>,
> {
    match group {
        None => regex_find_all(pattern, text).map_values(|span: Span| span_text(text, Some(span))),
        Some(g) => regex_captures_all(pattern, text).map_values(
            |groups: Seq<Option<Span>>| span_text(text, group_span(groups, g)),
        ),
    }
}

/// Whether every item extracted from one row is settled: no match gives a
/// null item, but with a group a match in which the group took no part.
pub open spec fn extract_all_settled(
    pattern: Seq<char>,
    x: Option<Seq<char>>,
    group: Option<usize>,
) -> bool {
    x matches Some(t) ==> match group {
        None => forall|k: int|
            0 <= k < regex_find_all(pattern, t).len() ==> #[trigger] extract_all_items(
                pattern,
                t,
                group,
            )[k] is Some,
        Some(g) => forall|k: int|
            0 <= k < regex_captures_all(pattern, t).len() ==> (#[trigger] extract_all_items(
                pattern,
                t,
                group,
            )[k] is Some <==> group_span(regex_captures_all(pattern, t)[k], g) is Some),
    }
}

/// The result of extracting all matches from one row; null for a null row.
pub open spec fn extract_all_row(pattern: Seq<char>, x: Option<Seq<char>>, group: Option<usize>) -> Option<
    Seq<Option<Seq<char>>>,
> {
    match x {
        None => None,
        Some(t) => Some(extract_all_items(pattern, t, group)),
    }
}

/// Copies the part of `text` that each span marks.
pub fn cut_spans(text: &str, spans: &Vec<Span>) -> (items: Vec<Option<String>>)
    ensures
        items.deep_view() == spans@.map_values(|span: Span| span_text(text@, Some(span))),
{
    let mut items: Vec<Option<String>> = Vec::new();
    let mut k: usize = 0;
    while k < spans.len()
        invariant
            k <= spans.len(),
            items@.len() == k,
            forall|j: int|
                0 <= j < k ==> (#[trigger] items@[j]).deep_view() == span_text(
                    text@,
                    Some(spans@[j]),
                ),
        decreases spans.len() - k,
    {
        items.push(cut_span(text, Some(spans[k])));
        k += 1;
    }
    assert(items.deep_view() =~= spans@.map_values(|span: Span| span_text(text@, Some(span))));
    items
}

/// Copies the part of `text` that group `group` marks in each match.
pub fn cut_group_of_each(text: &str, matches: &Vec<Vec<Option<Span>>>, group: usize) -> (items: Vec<
    Option<String>,
>)
    ensures
        items.deep_view() == matches.deep_view().map_values(
            |groups: Seq<Option<Span>>| span_text(text@, group_span(groups, group)),
        ),
{
    let mut items: Vec<Option<String>> = Vec::new();
    let mut k: usize = 0;
    while k < matches.len()
        invariant
            k <= matches.len(),
            items@.len() == k,
            forall|j: int|
                0 <= j < k ==> (#[trigger] items@[j]).deep_view() == span_text(
                    text@,
                    group_span(matches@[j]@, group),
                ),
        decreases matches.len() - k,
    {
        items.push(cut_span(text, pick_group(&matches[k], group)));
        k += 1;
    }
    assert forall|j: int| 0 <= j < matches.len() implies #[trigger] matches.deep_view()[j]
        == matches@[j]@ by {
        assert(matches@[j].deep_view() =~= matches@[j]@);
    }
    assert(items.deep_view() =~= matches.deep_view().map_values(
        |groups: Seq<Option<Span>>| span_text(text@, group_span(groups, group)),
    ));
    items
}

/// Extracts from `text` what every match of a compiled pattern matched, or
/// what one of its groups matched in every match.
pub fn extract_all_text(text: &str, pat: &Pattern, group: Option<usize>) -> (items: Vec<Option<String>>)
    ensures
        items.deep_view() == extract_all_items(pat@, text@, group),
        extract_all_settled(pat@, Some(text@), group),
{
    match group {
        None => {
            let spans = find_all(pat, text);
            assert forall|k: int| 0 <= k < spans@.len() implies #[trigger] extract_all_items(
                pat@,
                text@,
                group,
            )[k] is Some by {
                assert(span_fits(text@, Some(spans@[k])));
            }
            cut_spans(text, &spans)
        },
        Some(g) => {
            let matches = captures_all(pat, text);
            assert forall|k: int| 0 <= k < matches@.len() implies (#[trigger] extract_all_items(
                pat@,
                text@,
                group,
            )[k] is Some <==> group_span(regex_captures_all(pat@, text@)[k], g) is Some) by {
                assert(matches.deep_view()[k] =~= matches@[k]@);
                assert(spans_fit(text@, matches@[k]@));
                if g < matches@[k]@.len() {
                    assert(span_fits(text@, matches@[k]@[g as int]));
                }
            }
            cut_group_of_each(text, &matches, g)
        },
    }
}

/// Extracts from each row what every match of a compiled pattern matched, or
/// with `group` what that group matched in every match. A group that the
/// pattern does not have is refused before any row is read.
pub fn str_extract_all_compiled(array: &Column<String>, pat: &Pattern, group: Option<usize>) -> (r:
    Result<ListColumn<String>, StringpyErr>)
    ensures
        r is Ok <==> has_group(pat@, group),
        r matches Err(e) ==> is_group_error(e, pat@, group),
        r matches Ok(out) ==> holds_results(
            out,
            array@.len(),
            |i: int| extract_all_row(pat@, array@[i], group),
        ) && forall|i: int|
            0 <= i < array@.len() ==> extract_all_settled(pat@, #[trigger] array@[i], group),
{
    match check_group(pat, group) {
        Err(e) => Err(e),
        Ok(()) => {
            let row = |i: usize, x: &Option<String>| -> (y: Option<Vec<Option<String>>>)
                ensures
                    y.deep_view() == extract_all_row(pat@, x.deep_view(), group),
                    extract_all_settled(pat@, x.deep_view(), group),
                {
                    match x {
                        None => None,
                        Some(s) => Some(extract_all_text(s.as_str(), pat, group)),
                    }
                };
            let results = apply(array, row);
            assert forall|i: int| 0 <= i < array@.len() implies extract_all_settled(
                pat@,
                #[trigger] array@[i],
                group,
            ) by {
                assert(call_ensures(row, (i as usize, &array.rows[i]), results.rows[i]));
            }
            Ok(assemble(results.into_rows()))
        },
    }
}

/// Extracts from each row what every match of `pattern` matched, or with
/// `group` what that group matched in every match. The pattern is compiled
/// once, before any row is read; one that does not compile gives a
/// `PatternError`, and a group that the pattern does not have an
/// `InvalidGroupIndex`, both with no output.
pub fn str_extract_all(array: &Column<String>, pattern: &str, group: Option<usize>) -> (r: Result<
    ListColumn<String>,
    StringpyErr,
>)
    ensures
        r is Ok <==> regex_compiles(pattern@) && has_group(pattern@, group),
        r matches Err(e) ==> if regex_compiles(pattern@) {
            is_group_error(e, pattern@, group)
        } else {
            is_pattern_error(e, pattern@)
        },
        r matches Ok(out) ==> holds_results(
            out,
            array@.len(),
            |i: int| extract_all_row(pattern@, array@[i], group),
        ) && forall|i: int|
            0 <= i < array@.len() ==> extract_all_settled(pattern@, #[trigger] array@[i], group),
{
    match compile(pattern) {
        Err(e) => Err(e),
        Ok(pat) => str_extract_all_compiled(array, &pat, group),
    }
}

/// The items that the groups of a match give: what each group but the whole
/// match matched; an item is null where the group took no part in the match.
pub open spec fn group_items(text: Seq<char>, groups: Seq<Option<Span>>) -> Seq<Option<Seq<char>>> {
    if groups.len() == 0 {
        Seq::empty()
    } else {
        groups.skip(1).map_values(|span: Option<Span>| span_text(text, span))
    }
}

/// Whether the items that the groups of a match give are settled: an item is
/// null only where its group took no part in the match.
pub open spec fn groups_settled(text: Seq<char>, groups: Seq<Option<Span>>) -> bool {
    forall|j: int|
        0 <= j < group_items(text, groups).len() ==> (#[trigger] group_items(text, groups)[j] is Some
            <==> groups[j + 1] is Some)
}

/// Whether the result of matching one row is settled: where the pattern
/// matches in the row, an item is null only where its group took no part.
pub open spec fn match_settled(pattern: Seq<char>, x: Option<Seq<char>>) -> bool {
    x matches Some(t) ==> (regex_captures(pattern, t) matches Some(groups) ==> groups_settled(
        t,
        groups,
    ))
}

/// The result of matching one row: what the groups of the first match
/// matched; null for a null row and for a row without a match.
pub open spec fn match_row(pattern: Seq<char>, x: Option<Seq<char>>) -> Option<
    Seq<Option<Seq<char>>>,
> {
    match x {
        None => None,
        Some(t) => match regex_captures(pattern, t) {
            None => None,
            Some(groups) => Some(group_items(t, groups)),
        },
    }
}

/// Copies the part of `text` that each group of a match marks, but for the
/// first group, which is the whole match.
pub fn cut_groups(text: &str, groups: &Vec<Option<Span>>) -> (items: Vec<Option<String>>)
    ensures
        items.deep_view() == group_items(text@, groups@),
{
    let mut items: Vec<Option<String>> = Vec::new();
    let mut k: usize = 1;
    while k < groups.len()
        invariant
            1 <= k,
            k <= groups.len() || groups.len() == 0,
            groups.len() > 0 ==> items@.len() == k - 1,
            groups.len() == 0 ==> items@.len() == 0,
            forall|j: int|
                0 <= j < items@.len() ==> (#[trigger] items@[j]).deep_view() == span_text(
                    text@,
                    groups@[j + 1],
                ),
        decreases groups.len() - k,
    {
        items.push(cut_span(text, groups[k]));
        k += 1;
    }
    assert(items.deep_view() =~= group_items(text@, groups@));
    items
}

/// Gives for each row what the groups of the first match of a compiled
/// pattern matched.
pub fn str_match_compiled(array: &Column<String>, pat: &Pattern) -> (out: ListColumn<String>)
    ensures
        holds_results(out, array@.len(), |i: int| match_row(pat@, array@[i])),
        forall|i: int| 0 <= i < array@.len() ==> match_settled(pat@, #[trigger] array@[i]),
{
    let row = |i: usize, x: &Option<String>| -> (y: Option<Vec<Option<String>>>)
        ensures
            y.deep_view() == match_row(pat@, x.deep_view()),
            match_settled(pat@, x.deep_view()),
        {
            match x {
                None => None,
                Some(s) => match captures(pat, s.as_str()) {
                    None => None,
                    Some(groups) => {
                        assert(groups.deep_view() =~= groups@);
                        assert forall|j: int|
                            0 <= j < group_items(s@, groups@).len() implies (#[trigger] group_items(
                            s@,
                            groups@,
                        )[j] is Some <==> groups@[j + 1] is Some) by {
                            assert(span_fits(s@, groups@[j + 1]));
                        }
                        Some(cut_groups(s.as_str(), &groups))
                    },
                },
            }
        };
    let results = apply(array, row);
    assert forall|i: int| 0 <= i < array@.len() implies match_settled(
        pat@,
        #[trigger] array@[i],
    ) by {
        assert(call_ensures(row, (i as usize, &array.rows[i]), results.rows[i]));
    }
    assemble(results.into_rows())
}

/// Gives for each row what the groups of the first match of `pattern`
/// matched, the whole match left out. The pattern is compiled once, before
/// any row is read; one that does not compile gives a `PatternError` and no
/// output.
pub fn str_match(array: &Column<String>, pattern: &str) -> (r: Result<
    ListColumn<String>,
    StringpyErr,
>)
    ensures
        r is Ok <==> regex_compiles(pattern@),
        r matches Err(e) ==> is_pattern_error(e, pattern@),
        r matches Ok(out) ==> holds_results(
            out,
            array@.len(),
            |i: int| match_row(pattern@, array@[i]),
        ) && forall|i: int| 0 <= i < array@.len() ==> match_settled(pattern@, #[trigger] array@[i]),
{
    match compile(pattern) {
        Err(e) => Err(e),
        Ok(pat) => Ok(str_match_compiled(array, &pat)),
    }
}

/// The two items that locate a span: the byte offsets of its start and of its
/// end, as 32-bit integers: an offset past their range wraps round.
pub open spec fn span_items(span: Span) -> Seq<Option<i32>> {
    seq![Some(span.0 as i32), Some(span.1 as i32)]
}

/// The result of locating the pattern in one row: the offsets of the first
/// match; null for a null row and for a row without a match.
pub open spec fn locate_row(pattern: Seq<char>, x: Option<Seq<char>>) -> Option<Seq<Option<i32>>> {
    match x {
        None => None,
        Some(t) => match regex_find(pattern, t) {
            None => None,
            Some(span) => Some(span_items(span)),
        },
    }
}

/// The start and the end of a span as two list items.
pub fn locate_items(span: Span) -> (items: Vec<Option<i32>>)
    ensures
        items.deep_view() == span_items(span),
{
    let mut items: Vec<Option<i32>> = Vec::new();
    items.push(Some(#[verifier::truncate] (span.0 as i32)));
    items.push(Some(#[verifier::truncate] (span.1 as i32)));
    assert(items.deep_view() =~= span_items(span));
    items
}

/// Locates the first match of a compiled pattern in each row.
pub fn str_locate_compiled(array: &Column<String>, pat: &Pattern) -> (out: ListColumn<i32>)
    ensures
        holds_results(out, array@.len(), |i: int| locate_row(pat@, array@[i])),
{
    let row = |i: usize, x: &Option<String>| -> (y: Option<Vec<Option<i32>>>)
        ensures
            y.deep_view() == locate_row(pat@, x.deep_view()),
        {
            match x {
                None => None,
                Some(s) => match find(pat, s.as_str()) {
                    None => None,
                    Some(span) => Some(locate_items(span)),
                },
            }
        };
    let results = apply(array, row);
    assemble(results.into_rows())
}

/// Locates the first match of `pattern` in each row: the byte offsets at
/// which it starts and ends. The pattern is compiled once, before any row is
/// read; one that does not compile gives a `PatternError` and no output.
pub fn str_locate(array: &Column<String>, pattern: &str) -> (r: Result<
    ListColumn<i32>,
    StringpyErr,
>)
    ensures
        r is Ok <==> regex_compiles(pattern@),
        r matches Err(e) ==> is_pattern_error(e, pattern@),
        r matches Ok(out) ==> holds_results(
            out,
            array@.len(),
            |i: int| locate_row(pattern@, array@[i]),
        ),
{
    match compile(pattern) {
        Err(e) => Err(e),
        Ok(pat) => Ok(str_locate_compiled(array, &pat)),
    }
}

/// A null row of the input is a null row of every list output: one slot,
/// which holds null.
pub proof fn lemma_lists_keep_nulls(pattern: Seq<char>, limit: usize, group: Option<usize>)
    ensures
        slots_of(split_row(pattern, None, limit)) == seq![None::<Seq<char>>],
        slots_of(extract_all_row(pattern, None, group)) == seq![None::<Seq<char>>],
        slots_of(match_row(pattern, None)) == seq![None::<Seq<char>>],
        slots_of(locate_row(pattern, None)) == seq![None::<i32>],
{
}

/// In a list column that holds the results of the rows, the offsets start at
/// zero, never step back, end at the number of values, and leave at least one
/// slot to each row.
pub proof fn lemma_offsets_shape<V: DeepView>(
    out: ListColumn<V>,
    n: nat,
    result: spec_fn(int) -> Option<Seq<Option<V::V>>>,
)
    requires
        holds_results(out, n, result),
    ensures
        out.offsets@.len() == n + 1,
        out.offsets@[0] == 0,
        out.offsets@[n as int] == out.values@.len(),
        forall|i: int| 0 <= i < n ==> out.offsets@[i] + 1 <= #[trigger] out.offsets@[i + 1],
        forall|i: int, j: int| 0 <= i <= j <= n ==> out.offsets@[i] <= out.offsets@[j],
{
    assert forall|i: int, j: int| 0 <= i <= j <= n implies out.offsets@[i] <= out.offsets@[j] by {
        crate::ragged::lemma_offsets_ordered(out.offsets@, out.values@.len(), i, j);
    }
}

} // verus!
