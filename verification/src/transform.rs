use crate::apply::{apply, check_rows, fits_rows, row_value, value_for_row};
use crate::atomic::{capitalize_row, to_upper};
use crate::column::{propagates_nulls, Column};
use crate::error::{
    is_parameter_error, keep_message, rows_message, side_message, StringpyErr,
};
use crate::sides::{keep_named, parse_keep, parse_side, side_named, Keep, Side};
use crate::text::{
    len_of, lowercase, lowercase_of, pad_text, padded, repeat_text, repeated, squish_text,
    squished, sub_of, sub_text, trim_text, trimmed, truncate_text, truncated, unidecode,
    unidecoded, uppercase, uppercase_of,
};
use std::borrow::Cow;
use vstd::prelude::*;

verus! {

/// What squishing makes of one row.
pub open spec fn squish_row(x: Option<Seq<char>>) -> Option<Seq<char>> {
    match x {
        None => None,
        Some(t) => Some(squished(t)),
    }
}

/// Leaves one space between the words of each row and none at its ends.
pub fn str_squish(array: &Column<String>) -> (out: Column<String>)
    ensures
        out@.len() == array@.len(),
        forall|i: int| 0 <= i < array@.len() ==> #[trigger] out@[i] == squish_row(array@[i]),
        propagates_nulls(array@, out@),
{
    let row = |i: usize, x: &Option<String>| -> (y: Option<String>)
        ensures
            y.deep_view() == squish_row(x.deep_view()),
        {
            match x {
                None => None,
                Some(s) => Some(squish_text(s.as_str())),
            }
        };
    apply(array, row)
}

/// What trimming on `side` makes of one row.
pub open spec fn trim_row(x: Option<Seq<char>>, side: Side) -> Option<Seq<char>> {
    match x {
        None => None,
        Some(t) => Some(trimmed(t, side)),
    }
}

/// Removes the whitespace at the `left`, the `right` or `both` ends of each
/// row. Any other name for the side is refused before a row is read.
pub fn str_trim(array: &Column<String>, side: &str) -> (r: Result<Column<String>, StringpyErr>)
    ensures
        r is Ok <==> side_named(side@) is Some,
        r matches Err(e) ==> is_parameter_error(e, side_message()),
        r matches Ok(out) ==> {
            &&& out@.len() == array@.len()
            &&& forall|i: int|
                0 <= i < array@.len() ==> #[trigger] out@[i] == trim_row(
                    array@[i],
                    side_named(side@).unwrap(),
                )
            &&& propagates_nulls(array@, out@)
        },
{
    match parse_side(side) {
        None => Err(
            StringpyErr::InvalidParameter(
                String::from_str("side must be one of 'left', 'right', 'both'"),
            ),
        ),
        Some(side) => {
            let row = |i: usize, x: &Option<String>| -> (y: Option<String>)
                ensures
                    y.deep_view() == trim_row(x.deep_view(), side),
                {
                    match x {
                        None => None,
                        Some(s) => Some(trim_text(s.as_str(), side)),
                    }
                };
            Ok(apply(array, row))
        },
    }
}

/// What upper-casing makes of one row.
pub open spec fn upper_row(x: Option<Seq<char>>) -> Option<Seq<char>> {
    match x {
        None => None,
        Some(t) => Some(uppercase_of(t)),
    }
}

/// Puts each row in upper case.
pub fn str_to_upper(array: &Column<String>) -> (out: Column<String>)
    ensures
        out@.len() == array@.len(),
        forall|i: int| 0 <= i < array@.len() ==> #[trigger] out@[i] == upper_row(array@[i]),
        propagates_nulls(array@, out@),
{
    let row = |i: usize, x: &Option<String>| -> (y: Option<String>)
        ensures
            y.deep_view() == upper_row(x.deep_view()),
        {
            match x {
                None => None,
                Some(s) => Some(uppercase(s.as_str())),
            }
        };
    apply(array, row)
}

/// What lower-casing makes of one row.
pub open spec fn lower_row(x: Option<Seq<char>>) -> Option<Seq<char>> {
    match x {
        None => None,
        Some(t) => Some(lowercase_of(t)),
    }
}

/// Puts each row in lower case.
pub fn str_to_lower(array: &Column<String>) -> (out: Column<String>)
    ensures
        out@.len() == array@.len(),
        forall|i: int| 0 <= i < array@.len() ==> #[trigger] out@[i] == lower_row(array@[i]),
        propagates_nulls(array@, out@),
{
    let row = |i: usize, x: &Option<String>| -> (y: Option<String>)
        ensures
            y.deep_view() == lower_row(x.deep_view()),
        {
            match x {
                None => None,
                Some(s) => Some(lowercase(s.as_str())),
            }
        };
    apply(array, row)
}

/// Upper-cases the first character of every piece of each row between
/// occurrences of `sep`.
pub fn capitalize_pieces(array: &Column<String>, sep: &str) -> (out: Column<String>)
    ensures
        out@.len() == array@.len(),
        forall|i: int|
            0 <= i < array@.len() ==> #[trigger] out@[i] == capitalize_row(array@[i], sep@),
        propagates_nulls(array@, out@),
{
    let row = |i: usize, x: &Option<String>| -> (y: Option<String>)
        ensures
            y.deep_view() == capitalize_row(x.deep_view(), sep@),
        {
            match x {
                None => None,
                Some(s) => match to_upper(Some(s.as_str()), sep) {
                    Some(Cow::Owned(t)) => Some(t),
                    Some(Cow::Borrowed(t)) => Some(t.to_owned()),
                    None => None,
                },
            }
        };
    apply(array, row)
}

/// Upper-cases the first character of every word of each row, a word being
/// what stands between two single spaces.
pub fn str_to_title(array: &Column<String>) -> (out: Column<String>)
    ensures
        out@.len() == array@.len(),
        forall|i: int|
            0 <= i < array@.len() ==> #[trigger] out@[i] == capitalize_row(array@[i], " "@),
        propagates_nulls(array@, out@),
{
    capitalize_pieces(array, " ")
}

/// Upper-cases the first character of every sentence of each row, a sentence
/// being what stands between two occurrences of a full stop and a space.
pub fn str_to_sentence(array: &Column<String>) -> (out: Column<String>)
    ensures
        out@.len() == array@.len(),
        forall|i: int|
            0 <= i < array@.len() ==> #[trigger] out@[i] == capitalize_row(array@[i], ". "@),
        propagates_nulls(array@, out@),
{
    capitalize_pieces(array, ". ")
}

/// What transliteration to ASCII makes of one row.
pub open spec fn ascii_row(x: Option<Seq<char>>) -> Option<Seq<char>> {
    match x {
        None => None,
        Some(t) => Some(unidecoded(t)),
    }
}

/// Replaces the characters of each row by their ASCII transliteration, which
/// takes the diacritics off letters.
pub fn str_remove_ascent(array: &Column<String>) -> (out: Column<String>)
    ensures
        out@.len() == array@.len(),
        forall|i: int| 0 <= i < array@.len() ==> #[trigger] out@[i] == ascii_row(array@[i]),
        propagates_nulls(array@, out@),
{
    let row = |i: usize, x: &Option<String>| -> (y: Option<String>)
        ensures
            y.deep_view() == ascii_row(x.deep_view()),
        {
            match x {
                None => None,
                Some(s) => Some(unidecode(s.as_str())),
            }
        };
    apply(array, row)
}

/// The length of one row: the number of bytes of its ASCII transliteration, as
/// a 32-bit integer: a number past its range wraps round.
pub open spec fn length_row(x: Option<Seq<char>>) -> Option<i32> {
    match x {
        None => None,
        Some(t) => Some(len_of(unidecoded(t)) as i32),
    }
}

/// The length of each row once its characters are transliterated to ASCII.
pub fn str_length(array: &Column<String>) -> (out: Column<i32>)
    ensures
        out@.len() == array@.len(),
        forall|i: int| 0 <= i < array@.len() ==> #[trigger] out@[i] == length_row(array@[i]),
        propagates_nulls(array@, out@),
{
    let row = |i: usize, x: &Option<String>| -> (y: Option<i32>)
        ensures
            y == length_row(x.deep_view()),
        {
            match x {
                None => None,
                Some(s) => {
                    let plain = unidecode(s.as_str());
                    Some(#[verifier::truncate] (plain.as_str().len() as i32))
                },
            }
        };
    apply(array, row)
}

/// What repeating `times` times makes of one row.
pub open spec fn dup_row(x: Option<Seq<char>>, times: usize) -> Option<Seq<char>> {
    match x {
        None => None,
        Some(t) => Some(repeated(t, times as nat)),
    }
}

/// Repeats each row as many times as `times` says for it: `times` holds one
/// count for all rows or one for each row.
pub fn str_dup(array: &Column<String>, times: &Vec<usize>) -> (r: Result<
    Column<String>,
    StringpyErr,
>)
    ensures
        r is Ok <==> fits_rows(times@.len(), array@.len()),
        r matches Err(e) ==> is_parameter_error(e, rows_message()),
        r matches Ok(out) ==> {
            &&& out@.len() == array@.len()
            &&& forall|i: int|
                0 <= i < array@.len() ==> #[trigger] out@[i] == dup_row(
                    array@[i],
                    value_for_row(times@, i),
                )
            &&& propagates_nulls(array@, out@)
        },
{
    let n = array.len();
    match check_rows(times.len(), n) {
        Err(e) => Err(e),
        Ok(()) => {
            let row = |i: usize, x: &Option<String>| -> (y: Option<String>)
                requires
                    i < n,
                ensures
                    y.deep_view() == dup_row(x.deep_view(), value_for_row(times@, i as int)),
                {
                    match x {
                        None => None,
                        Some(s) => Some(repeat_text(s.as_str(), row_value(times, i))),
                    }
                };
            Ok(apply(array, row))
        },
    }
}

/// Reads every name of `names` as a side; `None` where one of them names none.
pub fn parse_sides(names: &Vec<&str>) -> (sides: Option<Vec<Side>>)
    ensures
        sides is Some <==> forall|k: int|
            0 <= k < names.len() ==> side_named(#[trigger] names[k]@) is Some,
        sides matches Some(v) ==> v.len() == names.len() && forall|k: int|
            0 <= k < names.len() ==> #[trigger] v[k] == side_named(names[k]@).unwrap(),
{
    let mut sides: Vec<Side> = Vec::new();
    let mut k: usize = 0;
    while k < names.len()
        invariant
            k <= names.len(),
            sides.len() == k,
            forall|j: int| 0 <= j < k ==> #[trigger] sides[j] == side_named(names[j]@).unwrap(),
            forall|j: int| 0 <= j < k ==> side_named(#[trigger] names[j]@) is Some,
        decreases names.len() - k,
    {
        match parse_side(names[k]) {
            None => {
                return None;
            },
            Some(side) => {
                sides.push(side);
            },
        }
        k += 1;
    }
    Some(sides)
}

/// What padding makes of one row.
pub open spec fn pad_row(x: Option<Seq<char>>, width: i32, side: Side, pad: char) -> Option<
    Seq<char>,
> {
    match x {
        None => None,
        Some(t) => Some(padded(t, width as int, side, pad)),
    }
}

/// Whether the parameters of `str_pad` are accepted for a column of `n` rows:
/// each has one value or one for each row, and every side is `left`, `right`
/// or `both`.
pub open spec fn pad_accepts(n: nat, width: Seq<i32>, side: Seq<Seq<char>>, pad: Seq<char>) -> bool {
    &&& fits_rows(width.len(), n)
    &&& fits_rows(side.len(), n)
    &&& fits_rows(pad.len(), n)
    &&& forall|k: int| 0 <= k < side.len() ==> side_named(#[trigger] side[k]) is Some
}

/// Adds to each row as many `pad` characters as it has bytes fewer than
/// `width`, on the `left`, on the `right`, or on `both` sides. Each parameter holds one value
/// for all rows or one for each row. A row that is as long as its width, or
/// longer, is unchanged; so it is with a negative width.
pub fn str_pad(array: &Column<String>, width: &Vec<i32>, side: &Vec<&str>, pad: &Vec<char>) -> (r:
    Result<Column<String>, StringpyErr>)
    ensures
        r is Ok <==> pad_accepts(array@.len(), width@, side.deep_view(), pad@),
        r matches Err(e) ==> is_parameter_error(
            e,
            if fits_rows(width@.len(), array@.len()) && fits_rows(side@.len(), array@.len())
                && fits_rows(pad@.len(), array@.len()) {
                side_message()
            } else {
                rows_message()
            },
        ),
        r matches Ok(out) ==> {
            &&& out@.len() == array@.len()
            &&& forall|i: int|
                0 <= i < array@.len() ==> #[trigger] out@[i] == pad_row(
                    array@[i],
                    value_for_row(width@, i),
                    side_named(value_for_row(side.deep_view(), i)).unwrap(),
                    value_for_row(pad@, i),
                )
            &&& propagates_nulls(array@, out@)
        },
{
    let n = array.len();
    assert(forall|k: int| 0 <= k < side.len() ==> #[trigger] side.deep_view()[k] == side[k]@);
    assert(forall|k: int| 0 <= k < side.len() ==> side.deep_view()[k] == #[trigger] side[k]@);
    if let Err(e) = check_rows(width.len(), n) {
        return Err(e);
    }
    if let Err(e) = check_rows(side.len(), n) {
        return Err(e);
    }
    if let Err(e) = check_rows(pad.len(), n) {
        return Err(e);
    }
    match parse_sides(side) {
        None => Err(
            StringpyErr::InvalidParameter(
                String::from_str("side must be one of 'left', 'right', 'both'"),
            ),
        ),
        Some(sides) => {
            let row = |i: usize, x: &Option<String>| -> (y: Option<String>)
                requires
                    i < n,
                ensures
                    y.deep_view() == pad_row(
                        x.deep_view(),
                        value_for_row(width@, i as int),
                        value_for_row(sides@, i as int),
                        value_for_row(pad@, i as int),
                    ),
                {
                    match x {
                        None => None,
                        Some(s) => Some(
                            pad_text(
                                s.as_str(),
                                row_value(width, i),
                                row_value(&sides, i),
                                row_value(pad, i),
                            ),
                        ),
                    }
                };
            Ok(apply(array, row))
        },
    }
}

/// What cutting between two signed byte indices makes of one row.
pub open spec fn sub_row(x: Option<Seq<char>>, start: i32, end: i32) -> Option<Seq<char>> {
    match x {
        None => None,
        Some(t) => sub_of(t, start as int, end as int),
    }
}

/// Cuts from each row the bytes from `start` up to `end`. An index counts from
/// the end of the row where it is negative, and one outside the row means the
/// nearest end. Each parameter holds one value for all rows or one for each
/// row. A row whose offsets are out of order, or fall inside a character,
/// becomes null.
pub fn str_sub(array: &Column<String>, start: &Vec<i32>, end: &Vec<i32>) -> (r: Result<
    Column<String>,
    StringpyErr,
>)
    ensures
        r is Ok <==> fits_rows(start@.len(), array@.len()) && fits_rows(end@.len(), array@.len()),
        r matches Err(e) ==> is_parameter_error(e, rows_message()),
        r matches Ok(out) ==> {
            &&& out@.len() == array@.len()
            &&& forall|i: int|
                0 <= i < array@.len() ==> #[trigger] out@[i] == sub_row(
                    array@[i],
                    value_for_row(start@, i),
                    value_for_row(end@, i),
                )
            &&& propagates_nulls(array@, out@)
        },
{
    let n = array.len();
    if let Err(e) = check_rows(start.len(), n) {
        return Err(e);
    }
    if let Err(e) = check_rows(end.len(), n) {
        return Err(e);
    }
    let row = |i: usize, x: &Option<String>| -> (y: Option<String>)
        requires
            i < n,
        ensures
            y.deep_view() == sub_row(
                x.deep_view(),
                value_for_row(start@, i as int),
                value_for_row(end@, i as int),
            ),
        {
            match x {
                None => None,
                Some(s) => sub_text(s.as_str(), row_value(start, i), row_value(end, i)),
            }
        };
    Ok(apply(array, row))
}

/// What truncation makes of one row.
pub open spec fn trunc_row(x: Option<Seq<char>>, width: usize, keep: Keep, ellipsis: Seq<char>) -> Option<
    Seq<char>,
> {
    match x {
        None => None,
        Some(t) => truncated(t, width, keep, ellipsis),
    }
}

/// Cuts each row that has `width` bytes or more down to `width` bytes and puts
/// `ellipsis` where the cut was made: the `left` part is kept, or the `right`
/// part, or with `center` both ends, the first taking `width / 2` bytes. A
/// shorter row is unchanged. A row that would be cut inside a character
/// becomes null. Any other name for the side is refused before a row is read.
pub fn str_trunc(array: &Column<String>, width: usize, side: &str, ellipsis: &str) -> (r: Result<
    Column<String>,
    StringpyErr,
>)
    ensures
        r is Ok <==> keep_named(side@) is Some,
        r matches Err(e) ==> is_parameter_error(e, keep_message()),
        r matches Ok(out) ==> {
            &&& out@.len() == array@.len()
            &&& forall|i: int|
                0 <= i < array@.len() ==> #[trigger] out@[i] == trunc_row(
                    array@[i],
                    width,
                    keep_named(side@).unwrap(),
                    ellipsis@,
                )
            &&& propagates_nulls(array@, out@)
        },
{
    match parse_keep(side) {
        None => Err(
            StringpyErr::InvalidParameter(
                String::from_str("Not a valid side, side must be ['left', 'right', 'center']"),
            ),
        ),
        Some(keep) => {
            let row = |i: usize, x: &Option<String>| -> (y: Option<String>)
                ensures
                    y.deep_view() == trunc_row(x.deep_view(), width, keep, ellipsis@),
                {
                    match x {
                        None => None,
                        Some(s) => truncate_text(s.as_str(), width, keep, ellipsis),
                    }
                };
            Ok(apply(array, row))
        },
    }
}

} // verus!
