use stringpy::column::Column;
use stringpy::error::StringpyErr;
use stringpy::lists::{
    cut_group_of_each, cut_groups, cut_spans, extract_all_text, locate_items, str_extract_all,
    str_extract_all_compiled, str_locate, str_locate_compiled, str_match, str_match_compiled,
    str_split, str_split_compiled, wrap_pieces,
};
use stringpy::pattern::compile;

fn strings(rows: &[Option<&str>]) -> Column<String> {
    Column::new(rows.iter().map(|r| r.map(|s| s.to_string())).collect())
}

fn owned(rows: &[Option<&str>]) -> Vec<Option<String>> {
    rows.iter().map(|r| r.map(|s| s.to_string())).collect()
}

#[test]
fn split_one_row_at_commas() {
    let out = str_split(&strings(&[Some("a,b,c")]), ",", None).unwrap();
    assert_eq!(out.values.rows, owned(&[Some("a"), Some("b"), Some("c")]));
    assert_eq!(out.offsets, vec![0, 3]);
}

#[test]
fn split_keeps_a_slot_for_null_rows() {
    let col = strings(&[Some("a,b,c"), None, Some(""), Some(",")]);
    let out = str_split(&col, ",", Some(2)).unwrap();
    assert_eq!(
        out.values.rows,
        owned(&[Some("a"), Some("b,c"), None, Some(""), Some(""), Some("")])
    );
    assert_eq!(out.offsets, vec![0, 2, 3, 4, 6]);
}

#[test]
fn split_with_no_piece_allowed_leaves_the_placeholder() {
    let col = strings(&[Some("a,b"), Some("c")]);
    let re = compile(",").unwrap();
    let out = str_split_compiled(&col, &re, 0);
    assert_eq!(out.values.rows, owned(&[None, None]));
    assert_eq!(out.offsets, vec![0, 1, 2]);
    let one = str_split_compiled(&col, &re, 1);
    assert_eq!(one.values.rows, owned(&[Some("a,b"), Some("c")]));
    assert_eq!(one.offsets, vec![0, 1, 2]);
}

#[test]
fn pieces_become_items() {
    assert_eq!(
        wrap_pieces(vec!["a".to_string(), String::new()]),
        owned(&[Some("a"), Some("")])
    );
    assert_eq!(wrap_pieces(Vec::new()), owned(&[]));
}

#[test]
fn extract_all_matches_of_each_row() {
    let col = strings(&[Some("a1b22"), None, Some("333")]);
    let out = str_extract_all(&col, r"\d+", None).unwrap();
    assert_eq!(out.values.rows, owned(&[Some("1"), Some("22"), None, Some("333")]));
    assert_eq!(out.offsets, vec![0, 2, 3, 4]);
}

#[test]
fn a_row_without_a_match_takes_one_null_slot() {
    let col = strings(&[Some("xyz"), Some("x1")]);
    let out = str_extract_all(&col, r"\d", None).unwrap();
    assert_eq!(out.values.rows, owned(&[None, Some("1")]));
    assert_eq!(out.offsets, vec![0, 1, 2]);
}

#[test]
fn extract_all_takes_one_group_of_each_match() {
    let col = strings(&[Some("a1b2"), Some("c"), None]);
    let letters = str_extract_all(&col, r"([a-z])(\d)?", Some(1)).unwrap();
    assert_eq!(letters.values.rows, owned(&[Some("a"), Some("b"), Some("c"), None]));
    assert_eq!(letters.offsets, vec![0, 2, 3, 4]);
    let digits = str_extract_all(&col, r"([a-z])(\d)?", Some(2)).unwrap();
    assert_eq!(digits.values.rows, owned(&[Some("1"), Some("2"), None, None]));
    assert_eq!(digits.offsets, vec![0, 2, 3, 4]);
}

#[test]
fn extract_all_refuses_a_group_that_the_pattern_lacks() {
    let col = strings(&[Some("a")]);
    assert!(matches!(
        str_extract_all(&col, "(a)", Some(2)),
        Err(StringpyErr::InvalidGroupIndex { group: 2, groups: 2, .. })
    ));
    let re = compile("a").unwrap();
    assert!(matches!(
        str_extract_all_compiled(&col, &re, Some(4)),
        Err(StringpyErr::InvalidGroupIndex { group: 4, groups: 1, .. })
    ));
    assert!(str_extract_all_compiled(&col, &re, Some(0)).is_ok());
}

#[test]
fn texts_are_cut_for_spans_and_groups() {
    assert_eq!(cut_spans("abcd", &vec![(0, 1), (2, 4)]), owned(&[Some("a"), Some("cd")]));
    assert_eq!(cut_spans("abcd", &vec![]), owned(&[]));
    let matches = vec![vec![Some((0, 2)), Some((0, 1))], vec![Some((2, 4)), None]];
    assert_eq!(cut_group_of_each("abcd", &matches, 0), owned(&[Some("ab"), Some("cd")]));
    assert_eq!(cut_group_of_each("abcd", &matches, 1), owned(&[Some("a"), None]));
    assert_eq!(cut_group_of_each("abcd", &matches, 2), owned(&[None, None]));
    assert_eq!(
        cut_groups("abcd", &vec![Some((0, 4)), Some((1, 2)), None, Some((3, 4))]),
        owned(&[Some("b"), None, Some("d")])
    );
    assert_eq!(cut_groups("abcd", &vec![Some((0, 4))]), owned(&[]));
    assert_eq!(cut_groups("abcd", &vec![]), owned(&[]));
    let re = compile(r"(\w)-(\w)").unwrap();
    assert_eq!(extract_all_text("a-b c-d", &re, None), owned(&[Some("a-b"), Some("c-d")]));
    assert_eq!(extract_all_text("a-b c-d", &re, Some(2)), owned(&[Some("b"), Some("d")]));
}

#[test]
fn match_gives_the_groups_of_the_first_match() {
    let col = strings(&[Some("me@site other@place"), Some("none"), None]);
    let out = str_match(&col, r"(\w+)@(\w+)").unwrap();
    assert_eq!(out.values.rows, owned(&[Some("me"), Some("site"), None, None]));
    assert_eq!(out.offsets, vec![0, 2, 3, 4]);
}

#[test]
fn match_gives_null_for_a_group_that_took_no_part() {
    let col = strings(&[Some("b")]);
    let re = compile("(a)|(b)").unwrap();
    let out = str_match_compiled(&col, &re);
    assert_eq!(out.values.rows, owned(&[None, Some("b")]));
    assert_eq!(out.offsets, vec![0, 2]);
}

#[test]
fn match_without_groups_leaves_the_placeholder() {
    let col = strings(&[Some("abc")]);
    let out = str_match(&col, "b").unwrap();
    assert_eq!(out.values.rows, owned(&[None]));
    assert_eq!(out.offsets, vec![0, 1]);
}

#[test]
fn locate_the_first_match() {
    let out = str_locate(&strings(&[Some("xaay")]), "a+").unwrap();
    assert_eq!(out.values.rows, vec![Some(1), Some(3)]);
    assert_eq!(out.offsets, vec![0, 2]);
}

#[test]
fn locate_counts_bytes_and_keeps_a_slot_for_rows_without_a_match() {
    let col = strings(&[Some("éa"), None, Some("b"), Some("")]);
    let re = compile("a*").unwrap();
    let out = str_locate_compiled(&col, &re);
    assert_eq!(
        out.values.rows,
        vec![Some(0), Some(0), None, Some(0), Some(0), Some(0), Some(0)]
    );
    assert_eq!(out.offsets, vec![0, 2, 3, 5, 7]);
    let strict = str_locate(&col, "a").unwrap();
    assert_eq!(strict.values.rows, vec![Some(2), Some(3), None, None, None]);
    assert_eq!(strict.offsets, vec![0, 2, 3, 4, 5]);
    assert_eq!(locate_items((4, 9)), vec![Some(4), Some(9)]);
}

#[test]
fn list_kernels_report_a_pattern_that_does_not_compile() {
    let col = strings(&[Some("a")]);
    assert!(matches!(str_split(&col, "(", None), Err(StringpyErr::PatternError(_))));
    assert!(matches!(str_extract_all(&col, "(", None), Err(StringpyErr::PatternError(_))));
    assert!(matches!(str_match(&col, "("), Err(StringpyErr::PatternError(_))));
    assert!(matches!(str_locate(&col, "("), Err(StringpyErr::PatternError(_))));
}

#[test]
fn every_row_of_a_list_output_holds_a_slot() {
    let col = strings(&[None, Some(""), Some("a,b"), None, Some("zz")]);
    let outputs = vec![
        str_split(&col, ",", None).unwrap(),
        str_extract_all(&col, "[a-z]", None).unwrap(),
        str_match(&col, "(a),(b)").unwrap(),
    ];
    for out in outputs.iter() {
        assert_eq!(out.offsets.len(), col.len() + 1);
        assert_eq!(out.offsets[0], 0);
        assert_eq!(*out.offsets.last().unwrap(), out.values.len());
        for i in 0..col.len() {
            assert!(out.offsets[i + 1] >= out.offsets[i] + 1);
        }
        assert_eq!(out.offsets[1] - out.offsets[0], 1);
        assert_eq!(out.values.rows[0], None);
        assert_eq!(out.offsets[4] - out.offsets[3], 1);
        assert_eq!(out.values.rows[out.offsets[3]], None);
    }
    let located = str_locate(&col, "z").unwrap();
    assert_eq!(located.offsets, vec![0, 1, 2, 3, 4, 6]);
    assert_eq!(located.values.rows, vec![None, None, None, None, Some(0), Some(1)]);
}
