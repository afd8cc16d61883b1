use stringpy::column::Column;
use stringpy::error::StringpyErr;
use stringpy::filter::{
    str_subset, str_subset_compiled, str_unique, str_which, str_which_compiled, subset, which,
};
use stringpy::pattern::compile;

fn strings(rows: &[Option<&str>]) -> Column<String> {
    Column::new(rows.iter().map(|r| r.map(|s| s.to_string())).collect())
}

fn owned(rows: &[Option<&str>]) -> Vec<Option<String>> {
    rows.iter().map(|r| r.map(|s| s.to_string())).collect()
}

#[test]
fn subset_keeps_the_matching_rows() {
    let col = strings(&[Some("apple"), None, Some("banana"), Some("cherry"), Some("banana")]);
    let yes = str_subset(&col, "an", false).unwrap();
    assert_eq!(yes.rows, owned(&[Some("banana"), Some("banana")]));
    let no = str_subset(&col, "an", true).unwrap();
    assert_eq!(no.rows, owned(&[Some("apple"), Some("cherry")]));
}

#[test]
fn subset_and_its_negation_share_out_the_rows_that_are_not_null() {
    let col = strings(&[Some("b"), None, Some("ab"), Some(""), None, Some("b"), Some("c")]);
    let re = compile("b").unwrap();
    let yes = str_subset_compiled(&col, &re, false).rows;
    let no = str_subset_compiled(&col, &re, true).rows;
    assert_eq!(yes, owned(&[Some("b"), Some("ab"), Some("b")]));
    assert_eq!(no, owned(&[Some(""), Some("c")]));
    assert!(yes.iter().all(|row| !no.contains(row)));
    assert!(yes.iter().chain(no.iter()).all(|row| row.is_some()));
    let mut both: Vec<Option<String>> = yes.iter().chain(no.iter()).cloned().collect();
    let mut rows: Vec<Option<String>> = col.rows.iter().filter(|r| r.is_some()).cloned().collect();
    both.sort();
    rows.sort();
    assert_eq!(both, rows);
}

#[test]
fn subset_by_flags_counts_a_null_flag_as_false() {
    let col = strings(&[Some("a"), None, Some("c"), Some("d")]);
    let flags = Column::new(vec![Some(true), Some(true), None, Some(false)]);
    assert_eq!(subset(&col, &flags).unwrap().rows, owned(&[Some("a"), None]));
}

#[test]
fn subset_by_flags_needs_a_flag_for_each_row() {
    let col = strings(&[Some("a"), Some("b")]);
    let flags = Column::new(vec![Some(true)]);
    match subset(&col, &flags) {
        Err(StringpyErr::InvalidParameter(message)) => {
            assert_eq!(message, "the flags must have one row for each row of the column")
        },
        other => panic!("unexpected result {:?}", other),
    }
}

#[test]
fn which_gives_the_positions_of_the_matching_rows() {
    let col = strings(&[Some("apple"), None, Some("banana"), Some("cherry"), Some("banana")]);
    assert_eq!(str_which(&col, "an", false).unwrap().rows, vec![Some(2), Some(4)]);
    assert_eq!(str_which(&col, "an", true).unwrap().rows, vec![Some(0), Some(3)]);
    let re = compile("^$").unwrap();
    assert_eq!(str_which_compiled(&col, &re, false).rows, Vec::<Option<i32>>::new());
    assert_eq!(
        str_which_compiled(&col, &re, true).rows,
        vec![Some(0), Some(2), Some(3), Some(4)]
    );
}

#[test]
fn which_positions_increase_and_each_has_a_true_flag() {
    let flags = Column::new(vec![None, Some(true), Some(false), Some(true), Some(true), None]);
    let out = which(&flags).rows;
    assert_eq!(out, vec![Some(1), Some(3), Some(4)]);
    for pair in out.windows(2) {
        assert!(pair[0].unwrap() < pair[1].unwrap());
    }
    for position in out.iter() {
        assert_eq!(flags.rows[position.unwrap() as usize], Some(true));
    }
    assert_eq!(which(&Column::new(vec![])).rows, Vec::<Option<i32>>::new());
}

#[test]
fn filters_report_a_pattern_that_does_not_compile() {
    let col = strings(&[Some("a")]);
    assert!(matches!(str_subset(&col, "(", false), Err(StringpyErr::PatternError(_))));
    assert!(matches!(str_which(&col, "(", true), Err(StringpyErr::PatternError(_))));
}

#[test]
fn unique_keeps_each_value_where_it_first_stands() {
    let col = strings(&[Some("a"), Some("b"), Some("a"), None, Some("b"), None, Some("c"), Some("")]);
    let out = str_unique(&col);
    assert_eq!(out.rows, owned(&[Some("a"), Some("b"), None, Some("c"), Some("")]));
}

#[test]
fn unique_of_rows_without_repeats_is_the_rows() {
    let col = strings(&[None, Some("x"), Some("X")]);
    assert_eq!(str_unique(&col).rows, owned(&[None, Some("x"), Some("X")]));
    assert_eq!(str_unique(&strings(&[])).rows, owned(&[]));
    assert_eq!(str_unique(&strings(&[None, None, None])).rows, owned(&[None]));
}
