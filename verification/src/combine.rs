use crate::apply::{apply, check_rows, fits_rows, value_for_row};
use crate::column::{propagates_nulls, Column};
use crate::error::{columns_message, is_parameter_error, rows_message, StringpyErr};
use crate::text::{from_chars, joined, len_of, to_chars};
use vstd::prelude::*;

verus! {

/// The text of a row, a null row counting as the empty text.
pub open spec fn value_or_empty(x: Option<Seq<char>>) -> Seq<char> {
    match x {
        None => Seq::empty(),
        Some(t) => t,
    }
}

/// The rows in order, each followed by `sep`, in one text.
pub open spec fn chained(rows: Seq<Option<Seq<char>>>, sep: Seq<char>) -> Seq<char>
    decreases rows.len(),
{
    if rows.len() == 0 {
        Seq::empty()
    } else {
        chained(rows.drop_last(), sep) + value_or_empty(rows.last()) + sep
    }
}

/// `text` without its last `count` characters, or empty where it has fewer.
pub open spec fn without_last(text: Seq<char>, count: int) -> Seq<char> {
    if count >= text.len() {
        Seq::empty()
    } else {
        text.take(text.len() - count)
    }
}

/// `text` without its last `count` characters, or empty where it has fewer.
pub fn drop_chars(text: &str, count: usize) -> (out: String)
    ensures
        out@ == without_last(text@, count as int),
{
    let chars = to_chars(text);
    if count >= chars.len() {
        String::new()
    } else {
        let out = from_chars(&chars, 0, chars.len() - count);
        assert(chars@.subrange(0, chars.len() - count) == chars@.take(chars.len() - count));
        out
    }
}

/// Collapses a column into one text: the rows in order, a null row counting as
/// empty, each followed by `collapse`; from the end of that text as many
/// characters are taken off as `collapse` has bytes. With no `collapse` the
/// rows are put together with nothing between them.
pub fn str_c(array: &Column<String>, collapse: Option<&str>) -> (out: String)
    ensures
        out@ == without_last(
            chained(array@, value_or_empty(collapse.deep_view())),
            len_of(value_or_empty(collapse.deep_view())) as int,
        ),
{
    let sep: &str = match collapse {
        Some(c) => c,
        None => "",
    };
    proof {
        reveal_strlit("");
        assert(""@ == Seq::<char>::empty());
    }
    let mut out = String::new();
    let mut i: usize = 0;
    while i < array.len()
        invariant
            i <= array@.len(),
            array@.len() == array.rows.len(),
            out@ == chained(array@.take(i as int), sep@),
        decreases array@.len() - i,
    {
        proof {
            assert(array@.take(i + 1).drop_last() == array@.take(i as int));
            assert(array@.take(i + 1).last() == array.rows[i as int].deep_view());
        }
        match &array.rows[i] {
            Some(s) => {
                out.append(s.as_str());
            },
            None => {},
        }
        out.append(sep);
        i += 1;
    }
    assert(array@.take(array@.len() as int) == array@);
    drop_chars(out.as_str(), sep.len())
}

/// The values of row `i` of each column, in the order of the columns; `None`
/// where one of them is null. A column of one row gives that row to every `i`.
pub open spec fn row_pieces(columns: Seq<Seq<Option<Seq<char>>>>, i: int) -> Option<Seq<Seq<char>>>
    decreases columns.len(),
{
    if columns.len() == 0 {
        Some(Seq::empty())
    } else {
        match (row_pieces(columns.drop_last(), i), value_for_row(columns.last(), i)) {
            (Some(pieces), Some(v)) => Some(pieces.push(v)),
            _ => None,
        }
    }
}

/// Row `i` of the combination of the columns: the values of the columns in
/// that row with `sep` between them; null where one of them is null.
pub open spec fn combined_row(columns: Seq<Seq<Option<Seq<char>>>>, i: int, sep: Seq<char>) -> Option<
    Seq<char>,
> {
    match row_pieces(columns, i) {
        Some(pieces) => Some(joined(pieces, sep)),
        None => None,
    }
}

/// Whether the columns can be combined: there is a first column, and every
/// other has one row or as many rows as the first.
pub open spec fn combinable(columns: Seq<Seq<Option<Seq<char>>>>) -> bool {
    &&& columns.len() > 0
    &&& forall|k: int|
        0 <= k < columns.len() ==> fits_rows((#[trigger] columns[k]).len(), columns[0].len())
}

/// The views of the columns.
pub open spec fn views_of(columns: Seq<Column<String>>) -> Seq<Seq<Option<Seq<char>>>> {
    columns.map_values(|c: Column<String>| c@)
}

/// Combines row `i` of the columns.
pub(crate) fn combine_row(columns: &Vec<Column<String>>, i: usize, sep: &str) -> (out: Option<String>)
    requires
        forall|k: int|
            0 <= k < columns.len() ==> (#[trigger] columns[k])@.len() == 1 || i < columns[k]@.len(),
    ensures
        out.deep_view() == combined_row(views_of(columns@), i as int, sep@),
{
    let ghost views = views_of(columns@);
    let mut out = String::new();
    let mut k: usize = 0;
    while k < columns.len()
        invariant
            k <= columns.len(),
            views == views_of(columns@),
            forall|j: int|
                0 <= j < columns.len() ==> (#[trigger] columns[j])@.len() == 1 || i
                    < columns[j]@.len(),
            row_pieces(views.take(k as int), i as int) is Some,
            out@ == joined(row_pieces(views.take(k as int), i as int).unwrap(), sep@),
            row_pieces(views.take(k as int), i as int).unwrap().len() == k,
        decreases columns.len() - k,
    {
        let column = &columns[k];
        let at: usize = if column.len() == 1 {
            0
        } else {
            i
        };
        proof {
            let next = views.take(k + 1);
            assert(next.drop_last() == views.take(k as int));
            assert(next.last() == column@);
            assert(value_for_row(column@, i as int) == column.rows[at as int].deep_view());
        }
        match &column.rows[at] {
            None => {
                proof {
                    lemma_null_piece(views, k as int, i as int);
                }
                return None;
            },
            Some(v) => {
                if k > 0 {
                    out.append(sep);
                }
                out.append(v.as_str());
                proof {
                    let before = row_pieces(views.take(k as int), i as int).unwrap();
                    let after = row_pieces(views.take(k + 1), i as int).unwrap();
                    assert(after == before.push(v@));
                    assert(after.drop_last() == before);
                }
            },
        }
        k += 1;
    }
    assert(views.take(columns.len() as int) == views);
    Some(out)
}

/// A null value in one column makes the whole row null.
pub proof fn lemma_null_piece(columns: Seq<Seq<Option<Seq<char>>>>, k: int, i: int)
    requires
        0 <= k < columns.len(),
        value_for_row(columns[k], i) is None,
    ensures
        row_pieces(columns, i) is None,
    decreases columns.len(),
{
    if k < columns.len() - 1 {
        lemma_null_piece(columns.drop_last(), k, i);
    }
}

/// Combines parallel columns row by row: each output row holds the values of
/// the columns in that row, with `sep` between them, and is null where one of
/// the values is. The first column gives the number of rows; every other has
/// as many rows, or one row that stands for all.
pub fn str_combine(columns: &Vec<Column<String>>, sep: Option<&str>) -> (r: Result<
    Column<String>,
    StringpyErr,
>)
    ensures
        r is Ok <==> combinable(views_of(columns@)),
        r matches Err(e) ==> is_parameter_error(
            e,
            if columns@.len() == 0 {
                columns_message()
            } else {
                rows_message()
            },
        ),
        r matches Ok(out) ==> {
            &&& out@.len() == columns[0]@.len()
            &&& forall|i: int|
                0 <= i < out@.len() ==> #[trigger] out@[i] == combined_row(
                    views_of(columns@),
                    i,
                    value_or_empty(sep.deep_view()),
                )
            &&& propagates_nulls(columns[0]@, out@)
        },
{
    let sep: &str = match sep {
        Some(s) => s,
        None => "",
    };
    proof {
        reveal_strlit("");
        assert(""@ == Seq::<char>::empty());
    }
    let ghost views = views_of(columns@);
    if columns.len() == 0 {
        return Err(
            StringpyErr::InvalidParameter(String::from_str("at least one column is needed")),
        );
    }
    let n = columns[0].len();
    let mut k: usize = 0;
    while k < columns.len()
        invariant
            k <= columns.len(),
            columns.len() > 0,
            n == columns[0]@.len(),
            views == views_of(columns@),
            forall|j: int| 0 <= j < k ==> fits_rows((#[trigger] views[j]).len(), n as nat),
        decreases columns.len() - k,
    {
        if let Err(e) = check_rows(columns[k].len(), n) {
            assert(!fits_rows(views[k as int].len(), views[0].len()));
            return Err(e);
        }
        k += 1;
    }
    let first = &columns[0];
    assert forall|j: int| 0 <= j < columns.len() implies (#[trigger] columns[j])@.len() == 1
        || columns[j]@.len() == n by {
        assert(fits_rows(views[j].len(), n as nat));
    }
    let row = |i: usize, x: &Option<String>| -> (y: Option<String>)
        requires
            i < n,
        ensures
            x is None ==> y is None,
            x is Some ==> y.deep_view() == combined_row(views_of(columns@), i as int, sep@),
        {
            match x {
                None => None,
                Some(_) => combine_row(columns, i, sep),
            }
        };
    let out = apply(first, row);
    assert forall|i: int| 0 <= i < out@.len() implies #[trigger] out@[i] == combined_row(
        views,
        i,
        sep@,
    ) by {
        assert(call_ensures(row, (i as usize, &first.rows[i]), out.rows[i]));
        if first.rows[i] is None {
            assert(value_for_row(views[0], i) is None) by {
                assert(views[0] == first@);
                assert(first@[i] is None);
            }
            lemma_null_piece(views, 0, i);
        }
    }
    Ok(out)
}

} // verus!
