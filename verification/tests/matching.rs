use stringpy::atomic::detect;
use stringpy::column::Column;
use stringpy::error::StringpyErr;
use stringpy::matching::{
    check_group, cut_span, extract_text, pick_group, str_count, str_count_compiled, str_detect,
    str_detect_compiled, str_ends, str_extract, str_extract_compiled, str_remove,
    str_remove_all, str_replace, str_replace_all, str_replace_all_compiled,
    str_replace_compiled, str_starts,
};
use stringpy::pattern::compile;

fn strings(rows: &[Option<&str>]) -> Column<String> {
    Column::new(rows.iter().map(|r| r.map(|s| s.to_string())).collect())
}

fn owned(rows: &[Option<&str>]) -> Vec<Option<String>> {
    rows.iter().map(|r| r.map(|s| s.to_string())).collect()
}

#[test]
fn count_matches_in_each_row() {
    let out = str_count(&strings(&[None, Some("aa"), Some("a")]), "a").unwrap();
    assert_eq!(out.rows, vec![None, Some(2), Some(1)]);
}

#[test]
fn count_takes_matches_that_do_not_overlap() {
    let col = strings(&[Some("aaaaa"), Some(""), Some("xyz")]);
    assert_eq!(str_count(&col, "aa").unwrap().rows, vec![Some(2), Some(0), Some(0)]);
    let re = compile("a|y").unwrap();
    assert_eq!(str_count_compiled(&col, &re).rows, vec![Some(5), Some(0), Some(1)]);
}

#[test]
fn a_pattern_that_does_not_compile_gives_no_output() {
    let col = strings(&[Some("a"), None]);
    match compile("(") {
        Err(StringpyErr::PatternError(message)) => assert!(!message.is_empty()),
        other => panic!("unexpected result {:?}", other.map(|_| ())),
    }
    assert!(matches!(str_count(&col, "("), Err(StringpyErr::PatternError(_))));
    assert!(matches!(str_detect(&col, "a{"), Err(StringpyErr::PatternError(_))));
    assert!(matches!(str_replace(&col, "[", "x"), Err(StringpyErr::PatternError(_))));
    assert!(matches!(str_replace_all(&col, "[", "x"), Err(StringpyErr::PatternError(_))));
    assert!(matches!(str_remove(&col, "(?P<n"), Err(StringpyErr::PatternError(_))));
    assert!(matches!(str_remove_all(&col, "*"), Err(StringpyErr::PatternError(_))));
    assert!(matches!(str_extract(&col, "(", None), Err(StringpyErr::PatternError(_))));
    assert!(matches!(str_extract(&col, "(", Some(9)), Err(StringpyErr::PatternError(_))));
    assert_eq!(col.rows, owned(&[Some("a"), None]));
}

#[test]
fn detect_marks_matching_rows() {
    let col = strings(&[Some("abc"), None, Some("xyz"), Some("")]);
    let out = str_detect(&col, "b").unwrap();
    assert_eq!(out.rows, vec![Some(true), None, Some(false), Some(false)]);
    let re = compile("^$").unwrap();
    let negated = str_detect_compiled(&col, &re, true);
    assert_eq!(negated.rows, vec![Some(true), None, Some(true), Some(false)]);
}

#[test]
fn detect_one_row_with_and_without_negation() {
    let re = compile("[0-9]+").unwrap();
    assert_eq!(detect(Some("a1"), &re, false), Some(true));
    assert_eq!(detect(Some("a1"), &re, true), Some(false));
    assert_eq!(detect(Some("ab"), &re, false), Some(false));
    assert_eq!(detect(Some("ab"), &re, true), Some(true));
    assert_eq!(detect(None, &re, false), None);
    assert_eq!(detect(None, &re, true), None);
}

#[test]
fn starts_and_ends_take_the_pattern_literally() {
    let col = strings(&[Some("a.b"), Some("axb"), None, Some("b.a.b")]);
    assert_eq!(
        str_starts(&col, "a.", false).unwrap().rows,
        vec![Some(true), Some(false), None, Some(false)]
    );
    assert_eq!(
        str_starts(&col, "a.", true).unwrap().rows,
        vec![Some(false), Some(true), None, Some(true)]
    );
    assert_eq!(
        str_ends(&col, ".b", false).unwrap().rows,
        vec![Some(true), Some(false), None, Some(true)]
    );
    assert_eq!(
        str_ends(&col, ".b", true).unwrap().rows,
        vec![Some(false), Some(true), None, Some(false)]
    );
    let odd = strings(&[Some("(x"), Some("x")]);
    assert_eq!(str_starts(&odd, "(", false).unwrap().rows, vec![Some(true), Some(false)]);
    assert_eq!(str_ends(&odd, "", false).unwrap().rows, vec![Some(true), Some(true)]);
}

#[test]
fn replace_the_first_match_or_every_match() {
    let col = strings(&[Some("aaa"), None, Some("xyz")]);
    assert_eq!(str_replace(&col, "a", "b").unwrap().rows, owned(&[Some("baa"), None, Some("xyz")]));
    assert_eq!(
        str_replace_all(&col, "a", "b").unwrap().rows,
        owned(&[Some("bbb"), None, Some("xyz")])
    );
}

#[test]
fn replacement_may_name_groups() {
    let col = strings(&[Some("john smith, ann lee")]);
    let re = compile(r"(\w+) (\w+)").unwrap();
    assert_eq!(
        str_replace_compiled(&col, &re, "$2 $1").rows,
        owned(&[Some("smith john, ann lee")])
    );
    assert_eq!(
        str_replace_all_compiled(&col, &re, "${2}_$1").rows,
        owned(&[Some("smith_john, lee_ann")])
    );
}

#[test]
fn remove_the_first_match_or_every_match() {
    let col = strings(&[Some("a1b22c"), None]);
    assert_eq!(str_remove(&col, r"\d+").unwrap().rows, owned(&[Some("ab22c"), None]));
    assert_eq!(str_remove_all(&col, r"\d+").unwrap().rows, owned(&[Some("abc"), None]));
}

#[test]
fn extract_the_first_match() {
    let col = strings(&[Some("abc123def45"), Some("xyz"), None, Some("é1")]);
    let out = str_extract(&col, r"\d+", None).unwrap();
    assert_eq!(out.rows, owned(&[Some("123"), None, None, Some("1")]));
    let whole = str_extract(&col, r"\d+", Some(0)).unwrap();
    assert_eq!(whole.rows, owned(&[Some("123"), None, None, Some("1")]));
}

#[test]
fn extract_an_empty_match_as_the_empty_text() {
    let col = strings(&[Some("abc"), Some("")]);
    let out = str_extract(&col, r"\d*", None).unwrap();
    assert_eq!(out.rows, owned(&[Some(""), Some("")]));
}

#[test]
fn extract_one_group_of_the_first_match() {
    let col = strings(&[Some("k1=v1;k2=v2"), Some("none"), None]);
    let key = str_extract(&col, r"(\w+)=(\w+)", Some(1)).unwrap();
    assert_eq!(key.rows, owned(&[Some("k1"), None, None]));
    let value = str_extract(&col, r"(\w+)=(\w+)", Some(2)).unwrap();
    assert_eq!(value.rows, owned(&[Some("v1"), None, None]));
}

#[test]
fn extract_gives_null_for_a_group_that_took_no_part() {
    let col = strings(&[Some("b"), Some("a")]);
    let out = str_extract(&col, "(a)|(b)", Some(1)).unwrap();
    assert_eq!(out.rows, owned(&[None, Some("a")]));
}

#[test]
fn extract_refuses_a_group_that_the_pattern_lacks() {
    let col = strings(&[Some("ab")]);
    match str_extract(&col, "(a)(b)", Some(3)) {
        Err(e) => {
            assert_eq!(e.message(), "Group 3 does not exist in `(a)(b)`");
            assert!(matches!(e, StringpyErr::InvalidGroupIndex { group: 3, groups: 3, .. }));
        },
        other => panic!("unexpected result {:?}", other),
    }
    assert!(str_extract(&col, "(a)(b)", Some(2)).is_ok());
    let re = compile("ab").unwrap();
    assert!(check_group(&re, None).is_ok());
    assert!(check_group(&re, Some(0)).is_ok());
    assert!(matches!(
        check_group(&re, Some(1)),
        Err(StringpyErr::InvalidGroupIndex { group: 1, groups: 1, .. })
    ));
    assert!(matches!(
        str_extract_compiled(&col, &re, Some(1)),
        Err(StringpyErr::InvalidGroupIndex { group: 1, groups: 1, .. })
    ));
}

#[test]
fn a_pattern_keeps_no_option_but_what_its_text_says() {
    let plain = compile("a.c").unwrap();
    assert_eq!(detect(Some("A\nC"), &plain, false), Some(false));
    assert_eq!(detect(Some("ABC"), &plain, false), Some(false));
    assert_eq!(detect(Some("abc"), &plain, false), Some(true));
    let flagged = compile("(?i)a.c").unwrap();
    assert_eq!(detect(Some("ABC"), &flagged, false), Some(true));
    let col = strings(&[Some("a#b")]);
    assert_eq!(str_count(&col, "a#b").unwrap().rows, vec![Some(1)]);
}

#[test]
fn a_match_always_gives_a_text() {
    let col = strings(&[Some("héé"), Some(""), Some("x")]);
    let out = str_extract(&col, "é*", None).unwrap();
    assert_eq!(out.rows, owned(&[Some(""), Some(""), Some("")]));
    let tail = str_extract(&col, "é+$", None).unwrap();
    assert_eq!(tail.rows, owned(&[Some("éé"), None, None]));
    let group = str_extract(&col, "(h)?(é)", Some(2)).unwrap();
    assert_eq!(group.rows, owned(&[Some("é"), None, None]));
}

#[test]
fn spans_are_cut_out_of_the_text() {
    assert_eq!(cut_span("héllo", Some((1, 3))), Some("é".to_string()));
    assert_eq!(cut_span("héllo", Some((2, 3))), None);
    assert_eq!(cut_span("héllo", Some((3, 1))), None);
    assert_eq!(cut_span("héllo", None), None);
    assert_eq!(cut_span("héllo", Some((0, 0))), Some(String::new()));
    let groups = vec![Some((0, 2)), None, Some((1, 2))];
    assert_eq!(pick_group(&groups, 0), Some((0, 2)));
    assert_eq!(pick_group(&groups, 1), None);
    assert_eq!(pick_group(&groups, 2), Some((1, 2)));
    assert_eq!(pick_group(&groups, 3), None);
    let re = compile(r"(\d)(x)?").unwrap();
    assert_eq!(extract_text("a7", &re, None), Some("7".to_string()));
    assert_eq!(extract_text("a7", &re, Some(1)), Some("7".to_string()));
    assert_eq!(extract_text("a7", &re, Some(2)), None);
    assert_eq!(extract_text("a", &re, Some(1)), None);
}

#[test]
fn null_rows_stay_null_in_every_matching_kernel() {
    let col = strings(&[None, Some("a"), None]);
    assert_eq!(str_count(&col, "a").unwrap().rows, vec![None, Some(1), None]);
    assert_eq!(str_detect(&col, "a").unwrap().rows, vec![None, Some(true), None]);
    assert_eq!(str_starts(&col, "a", true).unwrap().rows, vec![None, Some(false), None]);
    assert_eq!(str_ends(&col, "a", false).unwrap().rows, vec![None, Some(true), None]);
    assert_eq!(str_replace(&col, "a", "b").unwrap().rows, owned(&[None, Some("b"), None]));
    assert_eq!(str_replace_all(&col, "a", "b").unwrap().rows, owned(&[None, Some("b"), None]));
    assert_eq!(str_remove(&col, "a").unwrap().rows, owned(&[None, Some(""), None]));
    assert_eq!(str_remove_all(&col, "a").unwrap().rows, owned(&[None, Some(""), None]));
    assert_eq!(str_extract(&col, "a", None).unwrap().rows, owned(&[None, Some("a"), None]));
}
