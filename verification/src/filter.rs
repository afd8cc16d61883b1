use crate::atomic::detect_row;
use crate::column::Column;
use crate::error::{flags_message, is_parameter_error, StringpyErr};
use crate::matching::str_detect_compiled;
use crate::pattern::{compile, is_pattern_error, regex_compiles, regex_is_match, Pattern};
use itertools::Itertools;
use vstd::prelude::*;
use vstd::seq_lib::to_multiset_build;

verus! {

/// The rows whose flag is true, in order. A null flag counts as false.
pub open spec fn selected<A>(rows: Seq<A>, flags: Seq<Option<bool>>) -> Seq<A>
    decreases rows.len(),
{
    if rows.len() == 0 {
        Seq::empty()
    } else {
        let before = selected(rows.drop_last(), flags.drop_last());
        if flags.last() == Some(true) {
            before.push(rows.last())
        } else {
            before
        }
    }
}

/// The positions of the flags that are true, in order. A null flag counts as
/// false.
pub open spec fn positions(flags: Seq<Option<bool>>) -> Seq<int>
    decreases flags.len(),
{
    if flags.len() == 0 {
        Seq::empty()
    } else {
        let before = positions(flags.drop_last());
        if flags.last() == Some(true) {
            before.push(flags.len() - 1)
        } else {
            before
        }
    }
}

/// The positions of the flags that are true as rows of 32-bit integers.
pub open spec fn which_rows(flags: Seq<Option<bool>>) -> Seq<Option<i32>> {
    positions(flags).map_values(|p: int| Some(p as i32))
}

/// The flag of each row: whether the pattern matches in it, the other way
/// round with `negate`, and null for a null row.
pub open spec fn detect_flags(pattern: Seq<char>, rows: Seq<Option<Seq<char>>>, negate: bool) -> Seq<
    Option<bool>,
> {
    rows.map_values(|x: Option<Seq<char>>| detect_row(pattern, x, negate))
}

/// The rows that are not null, in order.
pub open spec fn non_null<A>(rows: Seq<Option<A>>) -> Seq<Option<A>>
    decreases rows.len(),
{
    if rows.len() == 0 {
        Seq::empty()
    } else if rows.last() is Some {
        non_null(rows.drop_last()).push(rows.last())
    } else {
        non_null(rows.drop_last())
    }
}

/// Keeps the rows of `array` whose flag is true.
fn select_rows(array: &Column<String>, flags: &Column<bool>) -> (out: Column<String>)
    requires
        flags@.len() == array@.len(),
    ensures
        out@ == selected(array@, flags@),
{
    let n = array.len();
    let mut out: Column<String> = Column::empty();
    let mut i: usize = 0;
    while i < n
        invariant
            i <= n,
            n == array@.len(),
            n == flags@.len(),
            n == array.rows@.len(),
            n == flags.rows@.len(),
            out@ == selected(array@.take(i as int), flags@.take(i as int)),
        decreases n - i,
    {
        proof {
            assert(array@.take(i + 1).drop_last() == array@.take(i as int));
            assert(flags@.take(i + 1).drop_last() == flags@.take(i as int));
            assert(flags@.take(i + 1).last() == flags.rows[i as int]);
            assert(array@.take(i + 1).last() == array.rows[i as int].deep_view());
        }
        let keep = match flags.rows[i] {
            Some(flag) => flag,
            None => false,
        };
        if keep {
            let row = match &array.rows[i] {
                Some(s) => Some(s.clone()),
                None => None,
            };
            out.push(row);
        }
        i += 1;
    }
    assert(array@.take(n as int) == array@);
    assert(flags@.take(n as int) == flags@);
    out
}

/// Keeps the rows of `array` whose flag in `flags` is true, in order; a null
/// flag counts as false. The two columns must have the same number of rows.
pub fn subset(array: &Column<String>, flags: &Column<bool>) -> (r: Result<
    Column<String>,
    StringpyErr,
>)
    ensures
        r is Ok <==> flags@.len() == array@.len(),
        r matches Err(e) ==> is_parameter_error(e, flags_message()),
        r matches Ok(out) ==> out@ == selected(array@, flags@),
{
    if flags.len() != array.len() {
        Err(
            StringpyErr::InvalidParameter(
                String::from_str("the flags must have one row for each row of the column"),
            ),
        )
    } else {
        Ok(select_rows(array, flags))
    }
}

/// The positions of the rows whose flag is true, counted from zero, in order;
/// a null flag counts as false. A position is given in 32 bits: past their
/// range it wraps round.
pub fn which(flags: &Column<bool>) -> (out: Column<i32>)
    ensures
        out@ == which_rows(flags@),
{
    let n = flags.len();
    let mut out: Column<i32> = Column::empty();
    let mut i: usize = 0;
    while i < n
        invariant
            i <= n,
            n == flags@.len(),
            n == flags.rows@.len(),
            out@ == which_rows(flags@.take(i as int)),
        decreases n - i,
    {
        proof {
            assert(flags@.take(i + 1).drop_last() == flags@.take(i as int));
            assert(flags@.take(i + 1).last() == flags.rows[i as int]);
        }
        let keep = match flags.rows[i] {
            Some(flag) => flag,
            None => false,
        };
        if keep {
            out.push(Some(#[verifier::truncate] (i as i32)));
            assert(out@ =~= which_rows(flags@.take(i + 1)));
        }
        i += 1;
    }
    assert(flags@.take(n as int) == flags@);
    out
}

/// Keeps the rows in which a compiled pattern matches, or with `negate` those
/// in which it does not. Null rows are left out either way.
pub fn str_subset_compiled(array: &Column<String>, pat: &Pattern, negate: bool) -> (out: Column<String>)
    ensures
        out@ == selected(array@, detect_flags(pat@, array@, negate)),
{
    let flags = str_detect_compiled(array, pat, negate);
    assert(flags@ =~= detect_flags(pat@, array@, negate));
    select_rows(array, &flags)
}

/// Keeps the rows in which `pattern` matches, or with `negate` those in which
/// it does not. Null rows are left out either way. The pattern is compiled
/// once, before any row is read; one that does not compile gives a
/// `PatternError` and no output.
pub fn str_subset(array: &Column<String>, pattern: &str, negate: bool) -> (r: Result<
    Column<String>,
    StringpyErr,
>)
    ensures
        r is Ok <==> regex_compiles(pattern@),
        r matches Err(e) ==> is_pattern_error(e, pattern@),
        r matches Ok(out) ==> out@ == selected(array@, detect_flags(pattern@, array@, negate)),
{
    match compile(pattern) {
        Err(e) => Err(e),
        Ok(pat) => Ok(str_subset_compiled(array, &pat, negate)),
    }
}

/// Gives the positions of the rows in which a compiled pattern matches, or
/// with `negate` of those in which it does not. Null rows are left out either
/// way.
pub fn str_which_compiled(array: &Column<String>, pat: &Pattern, negate: bool) -> (out: Column<i32>)
    ensures
        out@ == which_rows(detect_flags(pat@, array@, negate)),
{
    let flags = str_detect_compiled(array, pat, negate);
    assert(flags@ =~= detect_flags(pat@, array@, negate));
    which(&flags)
}

/// Gives the positions, counted from zero, of the rows in which `pattern`
/// matches, or with `negate` of those in which it does not. Null rows are
/// left out either way. A position is given in 32 bits: past their range it
/// wraps round. The pattern is compiled once, before any row is read;
/// one that does not compile gives a `PatternError` and no output.
pub fn str_which(array: &Column<String>, pattern: &str, negate: bool) -> (r: Result<
    Column<i32>,
    StringpyErr,
>)
    ensures
        r is Ok <==> regex_compiles(pattern@),
        r matches Err(e) ==> is_pattern_error(e, pattern@),
        r matches Ok(out) ==> out@ == which_rows(detect_flags(pattern@, array@, negate)),
{
    match compile(pattern) {
        Err(e) => Err(e),
        Ok(pat) => Ok(str_which_compiled(array, &pat, negate)),
    }
}

/// The rows that occur for the first time at their position, in order: each
/// value once, where it first stands.
pub open spec fn first_occurrences<A>(rows: Seq<A>) -> Seq<A>
    decreases rows.len(),
{
    if rows.len() == 0 {
        Seq::empty()
    } else if rows.drop_last().contains(rows.last()) {
        first_occurrences(rows.drop_last())
    } else {
        first_occurrences(rows.drop_last()).push(rows.last())
    }
}

/// Calls `Itertools::unique` on the rows in order, and collects what it
/// yields. Taken on trust: it yields each row that is equal to none before it,
/// in the order of the rows.
#[verifier::external_body]
fn unique_rows(rows: &Vec<Option<String>>) -> (out: Vec<Option<String>>)
    ensures
        out.deep_view() == first_occurrences(rows.deep_view()),
{
    rows.iter().unique().cloned().collect()
}

/// Keeps of each value its first row, in the order of the rows. Two rows are
/// the same value where they hold the same text; null rows count as one value.
pub fn str_unique(array: &Column<String>) -> (out: Column<String>)
    ensures
        out@ == first_occurrences(array@),
{
    Column::new(unique_rows(&array.rows))
}

/// What is selected comes from the rows: each selected row stands in the rows
/// at a position whose flag is true.
pub proof fn lemma_selected_from_rows<A>(rows: Seq<A>, flags: Seq<Option<bool>>, x: A)
    requires
        flags.len() == rows.len(),
        selected(rows, flags).contains(x),
    ensures
        exists|i: int| 0 <= i < rows.len() && rows[i] == x && flags[i] == Some(true),
    decreases rows.len(),
{
    if rows.len() > 0 {
        let before = selected(rows.drop_last(), flags.drop_last());
        if flags.last() == Some(true) && rows.last() == x {
            assert(rows[rows.len() - 1] == x && flags[rows.len() - 1] == Some(true));
        } else {
            if flags.last() == Some(true) {
                let k = choose|k: int| 0 <= k < before.push(rows.last()).len() && before.push(rows.last())[k] == x;
                assert(before[k] == x);
            }
            assert(before.contains(x));
            lemma_selected_from_rows(rows.drop_last(), flags.drop_last(), x);
            let i = choose|i: int|
                0 <= i < rows.drop_last().len() && rows.drop_last()[i] == x
                    && flags.drop_last()[i] == Some(true);
            assert(rows[i] == x && flags[i] == Some(true));
        }
    }
}

/// The rows in which a pattern matches and the rows in which it does not are,
/// together, exactly the rows that are not null, each as often as it stands
/// there; and no row is in both.
pub proof fn lemma_subset_partition(rows: Seq<Option<Seq<char>>>, pattern: Seq<char>)
    ensures
        selected(rows, detect_flags(pattern, rows, false)).to_multiset().add(
            selected(rows, detect_flags(pattern, rows, true)).to_multiset(),
        ) == non_null(rows).to_multiset(),
        forall|x: Option<Seq<char>>|
            !(selected(rows, detect_flags(pattern, rows, false)).contains(x) && selected(
                rows,
                detect_flags(pattern, rows, true),
            ).contains(x)),
        forall|x: Option<Seq<char>>|
            selected(rows, detect_flags(pattern, rows, false)).contains(x) || selected(
                rows,
                detect_flags(pattern, rows, true),
            ).contains(x) ==> x is Some,
    decreases rows.len(),
{
    let yes_flags = detect_flags(pattern, rows, false);
    let no_flags = detect_flags(pattern, rows, true);
    let yes = selected(rows, yes_flags);
    let no = selected(rows, no_flags);
    assert forall|x: Option<Seq<char>>| yes.contains(x) implies x is Some && regex_is_match(
        pattern,
        x.unwrap(),
    ) by {
        lemma_selected_from_rows(rows, yes_flags, x);
    }
    assert forall|x: Option<Seq<char>>| no.contains(x) implies x is Some && !regex_is_match(
        pattern,
        x.unwrap(),
    ) by {
        lemma_selected_from_rows(rows, no_flags, x);
    }
    broadcast use vstd::multiset::group_multiset_axioms;

    if rows.len() == 0 {
        yes.to_multiset_ensures();
        no.to_multiset_ensures();
        non_null(rows).to_multiset_ensures();
        assert(yes.to_multiset().add(no.to_multiset()) =~= non_null(rows).to_multiset());
    } else {
        let init = rows.drop_last();
        lemma_subset_partition(init, pattern);
        assert(yes_flags.drop_last() =~= detect_flags(pattern, init, false));
        assert(no_flags.drop_last() =~= detect_flags(pattern, init, true));
        let yes_init = selected(init, detect_flags(pattern, init, false));
        let no_init = selected(init, detect_flags(pattern, init, true));
        broadcast use to_multiset_build;
        assert(yes.to_multiset().add(no.to_multiset()) =~= non_null(rows).to_multiset());
    }
}

/// The positions of the true flags are positions of the flags, each of a flag
/// that is true; they come in strictly increasing order; and none is missing.
pub proof fn lemma_positions(flags: Seq<Option<bool>>)
    ensures
        forall|k: int|
            0 <= k < positions(flags).len() ==> 0 <= #[trigger] positions(flags)[k] < flags.len()
                && flags[positions(flags)[k]] == Some(true),
        forall|j: int, k: int|
            0 <= j < k < positions(flags).len() ==> positions(flags)[j] < positions(flags)[k],
        forall|i: int|
            0 <= i < flags.len() && #[trigger] flags[i] == Some(true) ==> positions(
                flags,
            ).contains(i),
    decreases flags.len(),
{
    if flags.len() > 0 {
        let init = flags.drop_last();
        let before = positions(init);
        lemma_positions(init);
        assert forall|i: int| 0 <= i < flags.len() && #[trigger] flags[i] == Some(
            true,
        ) implies positions(flags).contains(i) by {
            if i < flags.len() - 1 {
                assert(init[i] == Some(true));
                let k = choose|k: int| 0 <= k < before.len() && before[k] == i;
                assert(positions(flags)[k] == i);
            } else {
                assert(positions(flags)[before.len() as int] == i);
            }
        }
    }
}

/// The positions that `which` gives for a column whose positions fit 32 bits
/// are strictly increasing, and each is the position of a row whose flag is
/// true.
pub proof fn lemma_which_increasing(flags: Seq<Option<bool>>)
    requires
        flags.len() <= 0x8000_0000,
    ensures
        which_rows(flags).len() == positions(flags).len(),
        forall|k: int|
            0 <= k < which_rows(flags).len() ==> {
                let p = positions(flags)[k];
                &&& #[trigger] which_rows(flags)[k] == Some(p as i32)
                &&& p as i32 == p
                &&& 0 <= p < flags.len()
                &&& flags[p] == Some(true)
            },
        forall|j: int, k: int|
            0 <= j < k < which_rows(flags).len() ==> which_rows(flags)[j].unwrap() < which_rows(
                flags,
            )[k].unwrap(),
{
    lemma_positions(flags);
    assert forall|k: int| 0 <= k < which_rows(flags).len() implies {
        let p = positions(flags)[k];
        &&& #[trigger] which_rows(flags)[k] == Some(p as i32)
        &&& p as i32 == p
        &&& 0 <= p < flags.len()
        &&& flags[p] == Some(true)
    } by {
        let at = positions(flags)[k];
        assert(0 <= at < 0x8000_0000);
        assert(at as i32 == at);
    }
}

/// The positions that `str_which` gives for a column whose positions fit 32
/// bits are strictly increasing, and each is the position of a row that is not
/// null and in which the pattern matches, or with `negate` does not match.
pub proof fn lemma_which_detects(rows: Seq<Option<Seq<char>>>, pattern: Seq<char>, negate: bool)
    requires
        rows.len() <= 0x8000_0000,
    ensures
        forall|j: int, k: int|
            0 <= j < k < which_rows(detect_flags(pattern, rows, negate)).len() ==> which_rows(
                detect_flags(pattern, rows, negate),
            )[j].unwrap() < which_rows(detect_flags(pattern, rows, negate))[k].unwrap(),
        forall|k: int|
            0 <= k < which_rows(detect_flags(pattern, rows, negate)).len() ==> {
                let p = (#[trigger] which_rows(detect_flags(pattern, rows, negate))[k]).unwrap();
                &&& 0 <= p < rows.len()
                &&& rows[p as int] matches Some(text)
                &&& regex_is_match(pattern, text) != negate
            },
{
    let flags = detect_flags(pattern, rows, negate);
    lemma_which_increasing(flags);
    assert forall|k: int| 0 <= k < which_rows(flags).len() implies {
        let p = (#[trigger] which_rows(flags)[k]).unwrap();
        &&& 0 <= p < rows.len()
        &&& rows[p as int] matches Some(text)
        &&& regex_is_match(pattern, text) != negate
    } by {
        let p = positions(flags)[k];
        assert(flags[p] == Some(true));
        assert(flags[p] == detect_row(pattern, rows[p], negate));
    }
}

/// What is selected is the rows at the positions of the true flags.
pub proof fn lemma_selected_by_positions<A>(rows: Seq<A>, flags: Seq<Option<bool>>)
    requires
        flags.len() == rows.len(),
    ensures
        selected(rows, flags).len() == positions(flags).len(),
        forall|k: int|
            0 <= k < positions(flags).len() ==> #[trigger] selected(rows, flags)[k]
                == rows[positions(flags)[k]],
    decreases rows.len(),
{
    if rows.len() > 0 {
        lemma_selected_by_positions(rows.drop_last(), flags.drop_last());
        lemma_positions(flags.drop_last());
    }
}

/// Whether the row at position `i` is equal to none before it.
pub open spec fn is_first<A>(rows: Seq<A>, i: int) -> bool {
    !rows.take(i).contains(rows[i])
}

/// For each row, whether it is equal to none before it.
pub open spec fn first_flags<A>(rows: Seq<A>) -> Seq<Option<bool>> {
    Seq::new(rows.len(), |i: int| Some(is_first(rows, i)))
}

/// The first occurrences are the rows that are equal to none before them.
pub proof fn lemma_first_as_selected<A>(rows: Seq<A>)
    ensures
        first_occurrences(rows) == selected(rows, first_flags(rows)),
    decreases rows.len(),
{
    if rows.len() > 0 {
        let init = rows.drop_last();
        lemma_first_as_selected(init);
        assert(first_flags(rows).drop_last() =~= first_flags(init)) by {
            assert forall|i: int| 0 <= i < init.len() implies is_first(rows, i) == is_first(
                init,
                i,
            ) by {
                assert(rows.take(i) == init.take(i));
            }
        }
        assert(rows.take(rows.len() - 1) == init);
    }
}

/// Every value of the rows is among the first occurrences, and nothing else.
pub proof fn lemma_unique_keeps_values<A>(rows: Seq<A>)
    ensures
        forall|x: A| rows.contains(x) <==> first_occurrences(rows).contains(x),
    decreases rows.len(),
{
    if rows.len() > 0 {
        let init = rows.drop_last();
        let before = first_occurrences(init);
        let out = first_occurrences(rows);
        lemma_unique_keeps_values(init);
        assert forall|x: A| rows.contains(x) <==> out.contains(x) by {
            if rows.contains(x) {
                let i = rows.lemma_contains_to_index(x);
                if i < rows.len() - 1 {
                    assert(init[i] == x);
                    assert(init.contains(x));
                }
                if init.contains(x) {
                    assert(before.contains(x));
                    let k = before.lemma_contains_to_index(x);
                    assert(out[k] == x);
                } else {
                    assert(out[before.len() as int] == x);
                }
                assert(out.contains(x));
            }
            if out.contains(x) {
                let k = out.lemma_contains_to_index(x);
                if k < before.len() {
                    assert(before[k] == x);
                    assert(before.contains(x));
                    assert(init.contains(x));
                    let i = init.lemma_contains_to_index(x);
                    assert(rows[i] == x);
                } else {
                    assert(rows[rows.len() - 1] == x);
                }
                assert(rows.contains(x));
            }
        }
    }
}

/// The rows that `unique` keeps stand in the order of the rows, each at the
/// position where its value first occurs; no value is kept twice, so at most
/// one null row is kept; and every value of the rows is kept.
pub proof fn lemma_unique<A>(rows: Seq<A>)
    ensures
        first_occurrences(rows).len() == positions(first_flags(rows)).len(),
        forall|k: int|
            0 <= k < first_occurrences(rows).len() ==> {
                let at = #[trigger] positions(first_flags(rows))[k];
                &&& 0 <= at < rows.len()
                &&& first_occurrences(rows)[k] == rows[at]
                &&& is_first(rows, at)
            },
        forall|j: int, k: int|
            0 <= j < k < first_occurrences(rows).len() ==> positions(first_flags(rows))[j]
                < positions(first_flags(rows))[k],
        first_occurrences(rows).no_duplicates(),
        forall|x: A| rows.contains(x) <==> first_occurrences(rows).contains(x),
{
    let out = first_occurrences(rows);
    let flags = first_flags(rows);
    let at = positions(flags);
    lemma_first_as_selected(rows);
    lemma_selected_by_positions(rows, flags);
    lemma_positions(flags);
    lemma_unique_keeps_values(rows);
    assert forall|j: int, k: int| 0 <= j < out.len() && 0 <= k < out.len() && j != k implies out[j]
        != out[k] by {
        let (a, b) = if j < k {
            (j, k)
        } else {
            (k, j)
        };
        assert(at[a] < at[b]);
        assert(out[a] == rows[at[a]] && out[b] == rows[at[b]]);
        assert(is_first(rows, at[b]));
        if out[a] == out[b] {
            assert(rows.take(at[b])[at[a]] == rows[at[b]]);
        }
    }
}

/// Among the rows that `unique` keeps at most one is null.
pub proof fn lemma_unique_one_null<A>(rows: Seq<Option<A>>, j: int, k: int)
    requires
        0 <= j < first_occurrences(rows).len(),
        0 <= k < first_occurrences(rows).len(),
        first_occurrences(rows)[j] is None,
        first_occurrences(rows)[k] is None,
    ensures
        j == k,
{
    lemma_unique(rows);
}

} // verus!
