use crate::column::{propagates_nulls, Column};
use crate::error::{is_parameter_error, rows_message, StringpyErr};
use vstd::prelude::*;

verus! {

/// Whether a row function keeps the convention of every kernel: a null row in,
/// a null row out.
pub open spec fn keeps_nulls<T, U, F: Fn(usize, &Option<T>) -> Option<U>>(f: F) -> bool {
    forall|i: usize, x: Option<T>, y: Option<U>| x is None && call_ensures(f, (i, &x), y) ==> y is None
}

/// Applies a row function to every row of `col`, in one pass and in row order.
/// The function gets the row's position and its slot, null or not; the output
/// has one row for each input row.
pub fn apply<T: DeepView, U: DeepView, F: Fn(usize, &Option<T>) -> Option<U>>(
    col: &Column<T>,
    f: F,
) -> (out: Column<U>)
    requires
        forall|i: int| 0 <= i < col.rows.len() ==> call_requires(f, (i as usize, &col.rows[i])),
        keeps_nulls(f),
    ensures
        out.rows.len() == col.rows.len(),
        forall|i: int|
            0 <= i < col.rows.len() ==> call_ensures(
                f,
                (i as usize, &col.rows[i]),
                #[trigger] out.rows[i],
            ),
        propagates_nulls(col@, out@),
{
    let mut rows: Vec<Option<U>> = Vec::new();
    let n = col.rows.len();
    let mut i: usize = 0;
    while i < n
        invariant
            n == col.rows.len(),
            i <= n,
            rows.len() == i,
            forall|j: int| 0 <= j < n ==> call_requires(f, (j as usize, &col.rows[j])),
            forall|j: int|
                0 <= j < i ==> call_ensures(f, (j as usize, &col.rows[j]), #[trigger] rows[j]),
        decreases n - i,
    {
        let y = f(i, &col.rows[i]);
        rows.push(y);
        i += 1;
    }
    let out = Column { rows };
    assert(propagates_nulls(col@, out@)) by {
        assert forall|j: int| 0 <= j < col@.len() && col@[j] is None implies #[trigger] out@[j] is None by {
            assert(call_ensures(f, (j as usize, &col.rows[j]), out.rows[j]));
        }
    }
    out
}

/// Whether a parameter given as a sequence of `given` values fits a column of
/// `n` rows: one value for all rows, or one for each row.
pub open spec fn fits_rows(given: nat, n: nat) -> bool {
    given == 1 || given == n
}

/// The value of a per-row parameter for row `i`: the single value where one was
/// given for all rows.
pub open spec fn value_for_row<A>(values: Seq<A>, i: int) -> A {
    if values.len() == 1 {
        values[0]
    } else {
        values[i]
    }
}

/// Checks, before any row is processed, that a per-row parameter has one value
/// or one value for each of the `n` rows.
pub fn check_rows(given: usize, n: usize) -> (r: Result<(), StringpyErr>)
    ensures
        r is Ok <==> fits_rows(given as nat, n as nat),
        r matches Err(e) ==> is_parameter_error(e, rows_message()),
{
    if given == 1 || given == n {
        Ok(())
    } else {
        Err(
            StringpyErr::InvalidParameter(
                String::from_str("a per-row parameter must have one value, or one for each row"),
            ),
        )
    }
}

/// The value of a per-row parameter for row `i`.
pub(crate) fn row_value<A: Copy>(values: &Vec<A>, i: usize) -> (v: A)
    requires
        values.len() == 1 || i < values.len(),
    ensures
        v == value_for_row(values@, i as int),
{
    if values.len() == 1 {
        values[0]
    } else {
        values[i]
    }
}

} // verus!
